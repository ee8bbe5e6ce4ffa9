use ownterm::domain::{AuthMethod, CredentialRef, Host, HostDraft, HostGroup, Timestamp};
use ownterm::portability::{
    parse_openssh_config, portable_settings, preview_workspace, workspace_export, ImportAction,
    PortableAuthKind, PortableGroup, PortableHost, PortabilityError, WorkspaceExport,
};

fn host(name: &str, auth: AuthMethod) -> Host {
    Host::new(
        HostDraft {
            name: name.into(),
            address: format!("{name}.test"),
            port: 22,
            username: None,
            group_id: None,
            tags: vec![],
            auth,
            favorite: false,
        },
        Timestamp::from_unix_millis(1),
    )
    .unwrap()
}

#[test]
fn preview_reports_patterns_invalid_ports_and_identity_files() {
    let preview = parse_openssh_config(
        "Host edge\n HostName edge.example\n User ops\n Port 2222\n IdentityFile ~/.ssh/id\nHost *\n Port nope\nInclude x",
        &[],
    );
    assert_eq!(preview.entries.len(), 1);
    assert_eq!(preview.entries[0].host.address, "edge.example");
    assert_eq!(preview.entries[0].host.auth_kind, PortableAuthKind::PrivateKey);
    assert!(preview.ignored.len() >= 2);
}

#[test]
fn openssh_import_details() {
    let existing = [host("EDGE", AuthMethod::Agent)];
    let preview = parse_openssh_config(
        "# comment\nGlobal yes\nHost edge other # trailing\n  Port 0\nHost lonely\nHostName\nProxyJump bastion\nUser  \nCiphers aes",
        &existing,
    );
    assert_eq!(preview.entries.len(), 3);
    assert_eq!(preview.entries[0].host.name, "edge");
    assert!(preview.entries[0].conflict);
    assert_eq!(preview.entries[0].default_action, ImportAction::Skip);
    assert_eq!(preview.entries[1].host.address, "other");
    assert_eq!(preview.entries[1].default_action, ImportAction::Create);
    assert_eq!(preview.entries[2].host.port, 22);
    assert_eq!(preview.entries[2].host.username, None);
    let reasons: Vec<(usize, &str, &str)> = preview
        .ignored
        .iter()
        .map(|d| (d.line, d.directive.as_str(), d.reason.as_str()))
        .collect();
    assert_eq!(
        reasons,
        [
            (2, "global", "global directives are ignored"),
            (4, "Port", "port must be between 1 and 65535"),
            (6, "HostName", "directive has no value"),
            (7, "proxyjump", "directive is out of scope"),
            (8, "User", "directive has no value"),
            (9, "ciphers", "directive is not supported"),
        ]
    );
}

#[test]
fn export_omits_credential_references() {
    let h = host(
        "edge",
        AuthMethod::Password {
            credential_ref: CredentialRef::try_new("secret-reference").unwrap(),
        },
    );
    let settings = vec![
        ("apiKey".to_owned(), "must-not-export".to_owned()),
        ("appearance.windowOpacity".to_owned(), "92".to_owned()),
        ("theme".to_owned(), "dark".to_owned()),
    ];
    let export = workspace_export(&[], &[h], settings, "2026-01-01T00:00:00Z".into());
    assert_eq!(export.schema_version, 1);
    assert_eq!(export.settings, vec![("theme".to_owned(), "dark".to_owned())]);
    assert_eq!(export.hosts[0].auth_kind, PortableAuthKind::Password);
    assert!(export.hosts[0].credential_required);
    assert_eq!(export.hosts[0].private_key_path, None);
}

#[test]
fn export_names_groups_and_key_paths() {
    let group = HostGroup::new("Core", 3).unwrap();
    let mut h = host(
        "k",
        AuthMethod::PrivateKey { path: "/keys/id".into(), passphrase_ref: None },
    );
    h.group_id = Some(group.id);
    let none = host("n", AuthMethod::NoAuth);
    let export = workspace_export(&[group], &[h, none], vec![], "now".into());
    assert_eq!(export.groups, vec![PortableGroup { name: "Core".into(), sort_order: 3 }]);
    assert_eq!(export.hosts[0].group.as_deref(), Some("Core"));
    assert_eq!(export.hosts[0].private_key_path.as_deref(), Some("/keys/id"));
    assert_eq!(export.hosts[1].auth_kind, PortableAuthKind::NoAuth);
    assert!(!export.hosts[1].credential_required);
}

#[test]
fn workspace_round_trip_preserves_groups_and_credential_requirement() {
    let export = WorkspaceExport {
        schema_version: 1,
        exported_at: "2026-09-02T12:00:00Z".into(),
        groups: vec![PortableGroup { name: "Empty".into(), sort_order: 3 }],
        hosts: vec![PortableHost {
            name: "edge".into(),
            address: "edge.example".into(),
            port: 22,
            username: None,
            group: None,
            tags: vec![],
            favorite: false,
            auth_kind: PortableAuthKind::Password,
            private_key_path: None,
            credential_required: true,
        }],
        settings: vec![
            ("apiKey".into(), "must-not-import".into()),
            ("theme".into(), "dark".into()),
        ],
    };
    let preview = preview_workspace(export.clone(), &[]).unwrap();
    assert_eq!(preview.groups, vec![PortableGroup { name: "Empty".into(), sort_order: 3 }]);
    assert!(preview.entries[0].host.credential_required);
    assert_eq!(preview.settings, vec![("theme".to_owned(), "dark".to_owned())]);

    let mut newer = export;
    newer.schema_version = 2;
    assert_eq!(preview_workspace(newer, &[]), Err(PortabilityError::UnsupportedSchema));
}

#[test]
fn portable_settings_keep_only_the_theme() {
    assert_eq!(
        portable_settings(vec![("a".into(), "1".into()), ("theme".into(), "light".into())]),
        vec![("theme".to_owned(), "light".to_owned())]
    );
    assert!(portable_settings(vec![]).is_empty());
    assert_eq!(
        portable_settings(vec![
            ("theme".into(), "light".into()),
            ("font".into(), "mono".into()),
            ("theme".into(), "dark".into()),
        ]),
        vec![("theme".to_owned(), "dark".to_owned())]
    );
    assert_eq!(PortabilityError::InvalidFormat.message(), "workspace format is invalid");
}

#[test]
fn exported_workspace_previews_back_as_exported() {
    let group = HostGroup::new("Edge", 2).unwrap();
    let mut with_password = host(
        "router",
        AuthMethod::Password { credential_ref: CredentialRef::try_new("ownterm/host/r/password").unwrap() },
    );
    with_password.group_id = Some(group.id);
    let without = host("printer", AuthMethod::NoAuth);
    let export = workspace_export(
        &[group],
        &[with_password, without],
        vec![("theme".into(), "dark".into()), ("apiKey".into(), "secret".into())],
        "2026-01-01T00:00:00Z".into(),
    );
    let existing = host("ROUTER", AuthMethod::Agent);
    let preview = preview_workspace(export.clone(), &[existing]).unwrap();
    assert_eq!(preview.groups, vec![PortableGroup { name: "Edge".into(), sort_order: 2 }]);
    assert_eq!(preview.entries.len(), 2);
    assert_eq!(preview.entries[0].host, export.hosts[0]);
    assert_eq!(preview.entries[0].host.group.as_deref(), Some("Edge"));
    assert!(preview.entries[0].host.credential_required);
    assert!(preview.entries[0].conflict);
    assert_eq!(preview.entries[0].default_action, ImportAction::Skip);
    assert!(!preview.entries[1].host.credential_required);
    assert_eq!(preview.entries[1].default_action, ImportAction::Create);
    assert_eq!(preview.settings, vec![("theme".to_owned(), "dark".to_owned())]);
    assert!(preview.ignored.is_empty());
}
