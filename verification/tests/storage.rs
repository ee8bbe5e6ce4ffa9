use ownterm::domain::{AuthMethod, CredentialRef, Host, HostDraft, Timestamp};
use ownterm::ids::{GroupId, HostId, KnownHostId};
use ownterm::repositories::{HostQuery, RepositoryError};
use ownterm::storage::{
    contains_str, decode_host, decode_known_host, dropped_references, encode_auth, host_in_query,
    host_matches, is_known_table, orphaned_references, parse_credential, parse_group_id, parse_host_id, query_search,
    setting_key_valid, StoredHost,
};

fn row(auth_kind: &str) -> StoredHost {
    StoredHost {
        id: HostId::from_u128(5).to_string(),
        name: " Router ".into(),
        address: "router.example".into(),
        port: 2222,
        username: Some("ops".into()),
        group_id: None,
        auth_kind: auth_kind.into(),
        credential_ref: Some("ownterm/host/x/password".into()),
        private_key_path: Some("/keys/id".into()),
        passphrase_ref: None,
        favorite: true,
        created_at: 10,
        updated_at: 20,
    }
}

#[test]
fn decodes_stored_hosts() {
    let host = decode_host(row("password_ref"), vec!["b".into(), "a".into()]).unwrap();
    assert_eq!(host.id, HostId::from_u128(5));
    assert_eq!(host.name, "Router");
    assert_eq!(host.port, 2222);
    assert_eq!(host.tags, ["a", "b"]);
    assert_eq!(host.created_at.as_unix_millis(), 10);
    assert!(matches!(host.auth, AuthMethod::Password { .. }));
    let key = decode_host(row("private_key_ref"), vec![]).unwrap();
    assert!(matches!(key.auth, AuthMethod::PrivateKey { ref path, passphrase_ref: None } if path == "/keys/id"));
    assert!(matches!(decode_host(row("agent"), vec![]).unwrap().auth, AuthMethod::Agent));
    assert!(matches!(decode_host(row("none"), vec![]).unwrap().auth, AuthMethod::NoAuth));
}

#[test]
fn rejects_broken_rows() {
    assert!(decode_host(row("kerberos"), vec![]).err() == Some(RepositoryError::InvalidData));
    let mut bad_port = row("agent");
    bad_port.port = 70_000;
    assert!(decode_host(bad_port, vec![]).err() == Some(RepositoryError::InvalidData));
    let mut bad_id = row("agent");
    bad_id.id = "nope".into();
    assert!(decode_host(bad_id, vec![]).err() == Some(RepositoryError::InvalidData));
    let mut bad_group = row("agent");
    bad_group.group_id = Some("nope".into());
    assert!(decode_host(bad_group, vec![]).err() == Some(RepositoryError::InvalidData));
    let mut no_ref = row("password_ref");
    no_ref.credential_ref = None;
    assert!(decode_host(no_ref, vec![]).err() == Some(RepositoryError::InvalidData));
    assert!(decode_host(row("agent"), vec![" ".into()]).err() == Some(RepositoryError::InvalidData));
    assert_eq!(parse_credential(Some(" ".into())).err(), Some(RepositoryError::InvalidData));
    assert_eq!(parse_host_id("x"), Err(RepositoryError::InvalidData));
    assert!(parse_group_id(&GroupId::from_u128(1).to_string()).is_ok());
}

#[test]
fn written_auth_columns_read_back() {
    let auth = AuthMethod::PrivateKey {
        path: "C:/keys/id".into(),
        passphrase_ref: Some(CredentialRef::try_new("ownterm/host/p/passphrase").unwrap()),
    };
    let (kind, credential, path, passphrase) = encode_auth(&auth).unwrap();
    assert_eq!(kind, "private_key_ref");
    assert_eq!(credential, None);
    let mut stored = row(kind);
    stored.credential_ref = credential;
    stored.private_key_path = path;
    stored.passphrase_ref = passphrase;
    let back = decode_host(stored, vec![]).unwrap();
    assert!(back.auth == auth);
}

#[test]
fn decodes_known_hosts() {
    let id = KnownHostId::from_u128(3).to_string();
    let known = decode_known_host((id.clone(), "Example.COM.".into(), 22, "ssh-ed25519".into(), "SHA256:k".into(), 1, 2)).unwrap();
    assert_eq!(known.destination, "example.com");
    assert_eq!(known.updated_at.as_unix_millis(), 2);
    assert_eq!(decode_known_host((id, "x".into(), -1, "a".into(), "f".into(), 1, 2)), Err(RepositoryError::InvalidData));
}

#[test]
fn search_matches_fields_and_group_names() {
    let host = Host::new(
        HostDraft {
            name: "Core Router".into(),
            address: "router.example.com".into(),
            port: 22,
            username: Some("Admin".into()),
            group_id: Some(GroupId::from_u128(1)),
            tags: vec!["production".into()],
            auth: AuthMethod::Agent,
            favorite: false,
        },
        Timestamp::from_unix_millis(1),
    )
    .unwrap();
    assert!(host_matches(&host, "router.example", None));
    assert!(host_matches(&host, "admin", None));
    assert!(host_matches(&host, "prod", None));
    assert!(!host_matches(&host, "network", None));
    assert!(host_matches(&host, "network", Some("Network")));
    let query = HostQuery { search: Some("  NETWORK ".into()), group_id: None, favorites_only: false };
    let search = query_search(&query);
    assert_eq!(search.as_deref(), Some("network"));
    assert!(host_in_query(&host, &query, &search, Some("Network")));
    let favourites = HostQuery { search: None, group_id: None, favorites_only: true };
    assert!(!host_in_query(&host, &favourites, &None, None));
    let other_group = HostQuery { search: None, group_id: Some(GroupId::from_u128(2)), favorites_only: false };
    assert!(!host_in_query(&host, &other_group, &None, None));
    assert!(contains_str("abc", ""));
    assert!(!contains_str("ab", "abc"));
}

#[test]
fn cleanup_and_schema_rules() {
    let a = CredentialRef::try_new("a").unwrap();
    let b = CredentialRef::try_new("b").unwrap();
    let dropped = dropped_references(&vec![a.clone(), b.clone()], &vec![b.clone()]);
    assert_eq!(dropped.len(), 1);
    assert_eq!(dropped[0].as_str(), "a");
    assert!(is_known_table("hosts"));
    assert!(is_known_table("orphaned_credential_refs"));
    assert!(!is_known_table("sqlite_master"));
    assert!(setting_key_valid("theme"));
    assert!(!setting_key_valid("  "));
}

#[test]
fn only_unreferenced_references_are_orphaned() {
    let a = CredentialRef::try_new("ownterm/a").unwrap();
    let b = CredentialRef::try_new("ownterm/b").unwrap();
    let c = CredentialRef::try_new("ownterm/c").unwrap();
    let orphaned = orphaned_references(vec![(a, false), (b, true), (c, false)]);
    assert_eq!(orphaned.iter().map(|r| r.as_str()).collect::<Vec<_>>(), ["ownterm/a", "ownterm/c"]);
    assert!(orphaned_references(vec![]).is_empty());
}
