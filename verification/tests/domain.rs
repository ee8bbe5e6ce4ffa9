use ownterm::application::OwnTermApplication;
use ownterm::domain::{
    ownterm_identity, AuthMethod, CredentialRef, DomainError, Host, HostDraft, HostGroup,
    KnownHost, SessionDescriptor, SessionKind, SessionStatus, ShellProfile, Timestamp,
};

#[test]
fn exposes_the_product_identity() {
    assert_eq!(ownterm_identity().name(), "OwnTerm");
    assert!(!ownterm_identity().version().is_empty());
}

#[test]
fn delegates_product_identity_to_the_domain() {
    assert_eq!(OwnTermApplication::product_identity().name(), "OwnTerm");
}

#[test]
fn validates_and_normalizes_host_data() {
    let host = Host::new(
        HostDraft {
            name: " Edge Router ".into(),
            address: "router.example.com".into(),
            port: 22,
            username: Some(" root ".into()),
            group_id: None,
            tags: vec![" Core ".into(), "core".into(), "SSH".into()],
            auth: AuthMethod::Password {
                credential_ref: CredentialRef::try_new("ownterm/host/id/password").unwrap(),
            },
            favorite: true,
        },
        Timestamp::from_unix_millis(10),
    )
    .unwrap();

    assert_eq!(host.name, "Edge Router");
    assert_eq!(host.username.as_deref(), Some("root"));
    assert_eq!(host.tags, ["core", "ssh"]);
    assert_eq!(host.credential_refs().len(), 1);
}

#[test]
fn rejects_invalid_hosts_and_nested_group_is_absent_from_model() {
    let result = Host::new(
        HostDraft {
            name: "host".into(),
            address: "bad address".into(),
            port: 22,
            username: None,
            group_id: None,
            tags: Vec::new(),
            auth: AuthMethod::NoAuth,
            favorite: false,
        },
        Timestamp::from_unix_millis(0),
    );
    assert!(result == Err(DomainError::InvalidValue("address")));

    let group = HostGroup::new("Production", 0).unwrap();
    assert_eq!(group.name, "Production");
}

#[test]
fn creates_session_shell_and_normalized_known_host() {
    let shell = ShellProfile::new("PowerShell", "pwsh.exe".into(), Vec::new()).unwrap();
    let session = SessionDescriptor::new(
        SessionKind::Local {
            shell_profile_id: shell.id,
        },
        "PowerShell",
        SessionStatus::Starting,
    )
    .unwrap();
    let known = KnownHost::new(
        "SSH.EXAMPLE.COM.",
        22,
        "ssh-ed25519",
        "SHA256:test",
        Timestamp::from_unix_millis(1),
    )
    .unwrap();

    assert_eq!(session.title, "PowerShell");
    assert_eq!(known.destination, "ssh.example.com");
}

#[test]
fn redacts_credential_reference_debug_output() {
    let reference = CredentialRef::try_new("ownterm/host/secret/password").unwrap();
    let debug = reference.redacted_debug();
    assert_eq!(debug, "CredentialRef(<redacted>)");
    assert!(!debug.contains(reference.as_str()));
}

#[test]
fn credential_reference_rules() {
    assert!(CredentialRef::try_new("   ").err() == Some(DomainError::EmptyField("credential_ref")));
    assert!(CredentialRef::try_new("bad\u{7}ref").err() == Some(DomainError::InvalidValue("credential_ref")));
    let long = "x".repeat(513);
    assert!(CredentialRef::try_new(&long).err() == Some(DomainError::InvalidValue("credential_ref")));
    assert!(CredentialRef::try_new(&"x".repeat(512)).is_ok());
}

#[test]
fn host_rules_are_checked_in_order() {
    let draft = |name: &str, address: &str, port: u16, tags: Vec<String>, auth: AuthMethod| HostDraft {
        name: name.into(),
        address: address.into(),
        port,
        username: Some("   ".into()),
        group_id: None,
        tags,
        auth,
        favorite: false,
    };
    let t = Timestamp::from_unix_millis(5);
    assert!(Host::new(draft(" ", "a", 22, vec![], AuthMethod::Agent), t) == Err(DomainError::EmptyField("name")));
    assert!(Host::new(draft("n", " ", 22, vec![], AuthMethod::Agent), t) == Err(DomainError::EmptyField("address")));
    assert!(Host::new(draft("n", "a", 0, vec![], AuthMethod::Agent), t) == Err(DomainError::InvalidValue("port")));
    assert!(Host::new(draft("n", "a", 22, vec![" ".into()], AuthMethod::Agent), t) == Err(DomainError::EmptyField("tag")));
    let key = AuthMethod::PrivateKey { path: String::new(), passphrase_ref: None };
    assert!(Host::new(draft("n", "a", 22, vec![], key), t) == Err(DomainError::EmptyField("private_key_path")));
    let host = Host::new(draft("n", " a ", 22, vec!["b".into(), "A".into(), "b".into()], AuthMethod::Agent), t).unwrap();
    assert_eq!(host.address, "a");
    assert_eq!(host.username, None);
    assert_eq!(host.tags, ["a", "b"]);
    assert_eq!(host.created_at.as_unix_millis(), 5);
    assert_eq!(host.updated_at.as_unix_millis(), 5);
}

#[test]
fn domain_error_messages() {
    assert_eq!(DomainError::EmptyField("name").message(), "name must not be empty");
    assert_eq!(DomainError::InvalidValue("port").message(), "port is invalid");
}

#[test]
fn known_host_rejects_blank_and_spaced_destinations() {
    let t = Timestamp::from_unix_millis(1);
    assert!(KnownHost::new("  ", 22, "a", "f", t).err() == Some(DomainError::EmptyField("destination")));
    assert!(KnownHost::new("a b", 22, "a", "f", t).err() == Some(DomainError::InvalidValue("destination")));
    assert!(KnownHost::new("a", 0, "a", "f", t).err() == Some(DomainError::InvalidValue("port")));
    assert!(KnownHost::new("a", 22, " ", "f", t).err() == Some(DomainError::EmptyField("algorithm")));
    assert!(KnownHost::new("a", 22, "a", " ", t).err() == Some(DomainError::EmptyField("fingerprint")));
}
