use std::cell::RefCell;

use ownterm::appearance::AppearanceSettings;
use ownterm::appearance_editor::{appearance_settings_from_store, persist_opacities};
use ownterm::commands::{
    group_dtos, recent_dtos,
    delete_host, delete_host_group, export_workspace_document, list_hosts, list_recent_hosts,
    record_recent_host, save_host_group, SaveGroupRequest,
};
use ownterm::desktop::{
    credentials_to_configure, from_ssh_event, now, recent_host_step, recent_limit,
    repository_error, status_name, timestamp_from_clock, DesktopEvent, SessionDescriptorDto,
    SessionKindDto,
};
use ownterm::domain::{CredentialRef, Host, HostGroup, SessionDescriptor, SessionKind, SessionStatus, Timestamp};
use ownterm::host_save::{host_save_outcome, host_write_allowed, save_host, SaveHostRequest};
use ownterm::ids::{GroupId, HostId, SessionId, ShellProfileId};
use ownterm::portability::{ImportAction, PortableAuthKind, PortableHost};
use ownterm::repositories::{
    CredentialCleanupRepository, GroupRemoval, GroupRepository, HostQuery, HostRepository,
    RecentHost, RecentHostRepository, RepositoryError, Setting, SettingsRepository,
};
use ownterm::ssh_session::{CredentialKind, SshEvent};
use ownterm::vault::{FakeSecretVault, SecretValue, SecretVault, VaultError};

#[derive(Default)]
struct MemoryStore {
    hosts: RefCell<Vec<Host>>,
    groups: RefCell<Vec<HostGroup>>,
    settings: RefCell<Vec<Setting>>,
    recent: RefCell<Vec<RecentHost>>,
    cleanup: RefCell<Vec<CredentialRef>>,
    fail_writes: bool,
}

impl MemoryStore {
    fn refs_of(host: &Host) -> Vec<CredentialRef> {
        host.credential_refs()
    }
    fn referenced(&self, reference: &CredentialRef) -> bool {
        self.hosts
            .borrow()
            .iter()
            .any(|h| Self::refs_of(h).iter().any(|r| r.as_str() == reference.as_str()))
    }
}

impl HostRepository for MemoryStore {
    fn create_host(&self, host: &Host) -> Result<(), RepositoryError> {
        if self.fail_writes {
            return Err(RepositoryError::Storage("disk full".into()));
        }
        self.hosts.borrow_mut().push(host.clone());
        Ok(())
    }
    fn update_host(&self, host: &Host) -> Result<(), RepositoryError> {
        let previous = {
            let mut hosts = self.hosts.borrow_mut();
            let slot = hosts.iter_mut().find(|h| h.id == host.id).ok_or(RepositoryError::NotFound)?;
            std::mem::replace(slot, host.clone())
        };
        for reference in Self::refs_of(&previous) {
            if !self.referenced(&reference) {
                self.cleanup.borrow_mut().push(reference);
            }
        }
        Ok(())
    }
    fn delete_host(&self, id: HostId) -> Result<Vec<CredentialRef>, RepositoryError> {
        let removed = {
            let mut hosts = self.hosts.borrow_mut();
            let index = hosts.iter().position(|h| h.id == id).ok_or(RepositoryError::NotFound)?;
            hosts.remove(index)
        };
        let mut orphaned = Vec::new();
        for reference in Self::refs_of(&removed) {
            if !self.referenced(&reference) {
                self.cleanup.borrow_mut().push(reference.clone());
                orphaned.push(reference);
            }
        }
        Ok(orphaned)
    }
    fn get_host(&self, id: HostId) -> Result<Option<Host>, RepositoryError> {
        Ok(self.hosts.borrow().iter().find(|h| h.id == id).cloned())
    }
    fn list_hosts(&self, query: &HostQuery) -> Result<Vec<Host>, RepositoryError> {
        let search = query.search.as_ref().map(|s| s.to_lowercase());
        Ok(self
            .hosts
            .borrow()
            .iter()
            .filter(|h| search.as_ref().map_or(true, |s| h.name.to_lowercase().contains(s.as_str())))
            .cloned()
            .collect())
    }
}

impl CredentialCleanupRepository for MemoryStore {
    fn is_credential_referenced(&self, reference: &CredentialRef) -> Result<bool, RepositoryError> {
        Ok(self.referenced(reference))
    }
    fn list_pending_credential_cleanup(&self) -> Result<Vec<CredentialRef>, RepositoryError> {
        Ok(self.cleanup.borrow().clone())
    }
    fn complete_credential_cleanup(&self, reference: &CredentialRef) -> Result<(), RepositoryError> {
        self.cleanup.borrow_mut().retain(|r| r.as_str() != reference.as_str());
        Ok(())
    }
}

impl GroupRepository for MemoryStore {
    fn create_group(&self, group: &HostGroup) -> Result<(), RepositoryError> {
        self.groups.borrow_mut().push(group.clone());
        Ok(())
    }
    fn update_group(&self, group: &HostGroup) -> Result<(), RepositoryError> {
        let mut groups = self.groups.borrow_mut();
        let slot = groups.iter_mut().find(|g| g.id == group.id).ok_or(RepositoryError::NotFound)?;
        *slot = group.clone();
        Ok(())
    }
    fn delete_group(&self, id: GroupId, removal: GroupRemoval) -> Result<(), RepositoryError> {
        let used = self.hosts.borrow().iter().any(|h| h.group_id == Some(id));
        if used && removal == GroupRemoval::CancelIfNotEmpty {
            return Err(RepositoryError::GroupHasHosts);
        }
        let mut groups = self.groups.borrow_mut();
        let index = groups.iter().position(|g| g.id == id).ok_or(RepositoryError::NotFound)?;
        groups.remove(index);
        Ok(())
    }
    fn list_groups(&self) -> Result<Vec<HostGroup>, RepositoryError> {
        Ok(self.groups.borrow().clone())
    }
}

impl SettingsRepository for MemoryStore {
    fn set_setting(&self, setting: &Setting) -> Result<(), RepositoryError> {
        if self.fail_writes {
            return Err(RepositoryError::Storage("disk \"full\"".into()));
        }
        self.settings.borrow_mut().push(setting.clone());
        Ok(())
    }
    fn get_setting(&self, key: &str) -> Result<Option<Setting>, RepositoryError> {
        Ok(self.settings.borrow().iter().rev().find(|s| s.key == key).cloned())
    }
    fn list_settings(&self) -> Result<Vec<Setting>, RepositoryError> {
        Ok(self.settings.borrow().clone())
    }
}

impl RecentHostRepository for MemoryStore {
    fn record_recent(&self, recent: &RecentHost) -> Result<(), RepositoryError> {
        self.recent.borrow_mut().insert(0, recent.clone());
        Ok(())
    }
    fn list_recent(&self, limit: usize) -> Result<Vec<RecentHost>, RepositoryError> {
        Ok(self.recent.borrow().iter().take(limit).cloned().collect())
    }
}

fn request(name: &str) -> SaveHostRequest {
    SaveHostRequest {
        id: None,
        name: name.into(),
        address: format!("{name}.example"),
        port: 22,
        username: Some("ops".into()),
        group_id: None,
        tags: vec![],
        favorite: false,
        password: None,
        auth_kind: None,
        private_key_path: None,
        passphrase: None,
    }
}

#[test]
fn maps_local_session_to_public_contract() {
    let descriptor = SessionDescriptor::new(
        SessionKind::Local { shell_profile_id: ShellProfileId::new() },
        "PowerShell",
        SessionStatus::Connected,
    )
    .unwrap();

    let dto = SessionDescriptorDto::from_descriptor(descriptor);
    assert_eq!(dto.status, "connected");
    assert!(matches!(dto.kind, SessionKindDto::Local { .. }));
    assert_eq!(status_name(SessionStatus::Disconnected), "disconnected");
}

#[test]
fn storage_failures_are_reported_without_detail() {
    assert_eq!(
        repository_error(RepositoryError::GroupHasHosts),
        "group still contains hosts; choose to move them first"
    );
    assert_eq!(repository_error(RepositoryError::Storage("secret path".into())), "could not update OwnTerm storage");
    assert_eq!(recent_limit(None), 8);
    assert_eq!(recent_limit(Some(3)), 3);
    assert_eq!(recent_limit(Some(500)), 50);
    assert_eq!(timestamp_from_clock(None).as_unix_millis(), 0);
    assert_eq!(timestamp_from_clock(Some(1_700_000_000_000)).as_unix_millis(), 1_700_000_000_000);
    assert!(now().as_unix_millis() > 1_600_000_000_000);
}

#[test]
fn saves_a_password_host_with_a_fresh_vault_reference() {
    let vault = FakeSecretVault::default();
    let store = MemoryStore::default();
    let mut req = request("edge");
    req.password = Some("hunter2".into());
    req.tags = vec![" Core ".into()];
    let dto = save_host(&vault, &store, req, Timestamp::from_unix_millis(5)).unwrap();
    assert_eq!(dto.auth_kind, "password");
    assert_eq!(dto.tags, ["core"]);
    let saved = store.hosts.borrow()[0].clone();
    let reference = saved.credential_refs()[0].clone();
    assert!(reference.as_str().starts_with("ownterm/host/"));
    assert!(reference.as_str().ends_with("/password"));
    assert_eq!(reference.as_str().len(), "ownterm/host/".len() + 36 + "/password".len());
    assert_eq!(vault.read(&reference).unwrap().expose(), "hunter2");

    let mut update = request("edge");
    update.id = Some(saved.id.to_string());
    update.auth_kind = Some("password".into());
    update.password = Some(String::new());
    save_host(&vault, &store, update, Timestamp::from_unix_millis(6)).unwrap();
    let kept = store.hosts.borrow()[0].clone();
    assert_eq!(kept.credential_refs()[0].as_str(), reference.as_str());
    assert_eq!(kept.created_at.as_unix_millis(), 5);
    assert_eq!(kept.updated_at.as_unix_millis(), 6);

    let mut replace = request("edge");
    replace.id = Some(saved.id.to_string());
    replace.password = Some("new".into());
    save_host(&vault, &store, replace, Timestamp::from_unix_millis(7)).unwrap();
    let replaced = store.hosts.borrow()[0].credential_refs()[0].clone();
    assert!(replaced.as_str() != reference.as_str());
    assert!(vault.read(&reference) == Err(VaultError::NotFound));
    assert_eq!(vault.read(&replaced).unwrap().expose(), "new");
}

#[test]
fn rejects_bad_requests_and_rolls_back_the_vault() {
    let vault = FakeSecretVault::default();
    let store = MemoryStore::default();
    let mut bad_group = request("a");
    bad_group.group_id = Some("nope".into());
    assert_eq!(save_host(&vault, &store, bad_group, Timestamp::from_unix_millis(1)).unwrap_err(), "invalid group id");
    let mut bad_id = request("a");
    bad_id.id = Some("nope".into());
    assert_eq!(save_host(&vault, &store, bad_id, Timestamp::from_unix_millis(1)).unwrap_err(), "invalid host id");
    let mut missing = request("a");
    missing.id = Some(HostId::from_u128(9).to_string());
    assert_eq!(save_host(&vault, &store, missing, Timestamp::from_unix_millis(1)).unwrap_err(), "host not found");
    let mut odd = request("a");
    odd.auth_kind = Some("kerberos".into());
    assert_eq!(
        save_host(&vault, &store, odd, Timestamp::from_unix_millis(1)).unwrap_err(),
        "unsupported SSH authentication method"
    );
    let mut keyless = request("a");
    keyless.auth_kind = Some("private_key".into());
    keyless.private_key_path = Some("  ".into());
    assert_eq!(save_host(&vault, &store, keyless, Timestamp::from_unix_millis(1)).unwrap_err(), "private key path is required");
    let mut blank = request(" ");
    blank.address = "x".into();
    assert_eq!(save_host(&vault, &store, blank, Timestamp::from_unix_millis(1)).unwrap_err(), "name must not be empty");

    let failing = FakeSecretVault::failing(VaultError::Platform("locked".into()));
    let mut secret = request("b");
    secret.password = Some("pw".into());
    assert_eq!(
        save_host(&failing, &store, secret, Timestamp::from_unix_millis(1)).unwrap_err(),
        "could not store credential in system vault"
    );

    let broken = MemoryStore { fail_writes: true, ..MemoryStore::default() };
    let mut keyed = request("c");
    keyed.auth_kind = Some("private_key".into());
    keyed.private_key_path = Some("/k".into());
    keyed.passphrase = Some("pp".into());
    assert_eq!(
        save_host(&vault, &broken, keyed, Timestamp::from_unix_millis(1)).unwrap_err(),
        "could not update OwnTerm storage"
    );
    assert!(store.hosts.borrow().is_empty());
}

#[test]
fn group_and_host_commands() {
    let vault = FakeSecretVault::default();
    let store = MemoryStore::default();
    let group = save_host_group(&store, SaveGroupRequest { id: None, name: " Core ".into(), sort_order: 2 }).unwrap();
    assert_eq!(group.name, "Core");
    let renamed = save_host_group(&store, SaveGroupRequest { id: Some(group.id.clone()), name: "Edge".into(), sort_order: 1 }).unwrap();
    assert_eq!(renamed.id, group.id);
    assert_eq!(
        save_host_group(&store, SaveGroupRequest { id: Some("x".into()), name: "n".into(), sort_order: 0 }).unwrap_err(),
        "invalid group id"
    );
    assert_eq!(
        save_host_group(&store, SaveGroupRequest { id: None, name: "  ".into(), sort_order: 0 }).unwrap_err(),
        "group_name must not be empty"
    );

    let mut member = request("m");
    member.group_id = Some(group.id.clone());
    member.password = Some("pw".into());
    let saved = save_host(&vault, &store, member, Timestamp::from_unix_millis(1)).unwrap();
    assert_eq!(saved.group_id.as_deref(), Some(group.id.as_str()));
    assert_eq!(
        delete_host_group(&store, &group.id, false).unwrap_err(),
        "group still contains hosts; choose to move them first"
    );
    assert_eq!(list_hosts(&store, Some("M".into())).unwrap().len(), 1);
    record_recent_host(&store, &saved.id, Timestamp::from_unix_millis(3)).unwrap();
    assert_eq!(list_recent_hosts(&store, None).unwrap()[0].id, saved.id);
    let reference = store.hosts.borrow()[0].credential_refs()[0].clone();
    delete_host(&vault, &store, &saved.id).unwrap();
    assert!(vault.read(&reference) == Err(VaultError::NotFound));
    assert!(list_recent_hosts(&store, None).unwrap().is_empty());
    assert_eq!(delete_host(&vault, &store, "bad").unwrap_err(), "invalid host id");
    delete_host_group(&store, &group.id, true).unwrap();

    store.set_setting(&Setting { key: "theme".into(), value: "dark".into() }).unwrap();
    store.set_setting(&Setting { key: "apiKey".into(), value: "x".into() }).unwrap();
    let export = export_workspace_document(&store, "t".into()).unwrap();
    assert_eq!(export.settings, vec![("theme".to_owned(), "dark".to_owned())]);
    assert!(vault.store(&reference, &SecretValue::new("z")).is_ok());
}

#[test]
fn ssh_events_reach_the_interface_with_public_names() {
    let id = SessionId::from_u128(1);
    let event = from_ssh_event(SshEvent::CredentialRequired { session_id: id, kind: CredentialKind::Passphrase });
    assert_eq!(event.name(), "session-credential-required-v1");
    match event {
        DesktopEvent::CredentialRequired(payload) => {
            assert_eq!(payload.version, 1);
            assert_eq!(payload.kind, "passphrase");
            assert_eq!(payload.session_id, "00000000-0000-0000-0000-000000000001");
        }
        _ => panic!("unexpected event"),
    }
    let status = from_ssh_event(SshEvent::Status { session_id: id, status: SessionStatus::AwaitingTrust, reason: None });
    assert!(matches!(status, DesktopEvent::Status(ref p) if p.status == "awaiting_trust"));
    let host = Some(HostId::from_u128(2));
    assert_eq!(recent_host_step(SessionStatus::Starting, false, host), (false, None));
    assert_eq!(recent_host_step(SessionStatus::Connected, false, host), (true, host));
    assert_eq!(recent_host_step(SessionStatus::Connected, true, host), (true, None));
}

#[test]
fn counts_imports_that_need_credentials() {
    let portable = |kind: PortableAuthKind, required: bool| PortableHost {
        name: "h".into(),
        address: "h".into(),
        port: 22,
        username: None,
        group: None,
        tags: vec![],
        favorite: false,
        auth_kind: kind,
        private_key_path: None,
        credential_required: required,
    };
    let entries = vec![
        (portable(PortableAuthKind::Password, true), ImportAction::Create),
        (portable(PortableAuthKind::PrivateKey, true), ImportAction::Update),
        (portable(PortableAuthKind::Password, true), ImportAction::Skip),
        (portable(PortableAuthKind::Agent, true), ImportAction::Create),
        (portable(PortableAuthKind::Password, false), ImportAction::Create),
    ];
    assert_eq!(credentials_to_configure(&entries), 2);
}

#[test]
fn group_ids_print_as_uuids() {
    let id = GroupId::from_u128(0xff);
    assert_eq!(id.to_string(), "00000000-0000-0000-0000-0000000000ff");
}

#[test]
fn appearance_opacities_are_saved_as_text_and_load_back() {
    let store = MemoryStore::default();
    let first = appearance_settings_from_store(&store).unwrap();
    assert!(first.defaults_applied);
    assert_eq!(first.settings, AppearanceSettings::default());

    persist_opacities(&store, AppearanceSettings::try_new(80, 75).unwrap()).unwrap();
    let values: Vec<(String, String)> =
        store.settings.borrow().iter().map(|s| (s.key.clone(), s.value.clone())).collect();
    assert_eq!(values[0].1, "80");
    assert_eq!(values[1].1, "75");
    let loaded = appearance_settings_from_store(&store).unwrap();
    assert!(!loaded.defaults_applied);
    assert_eq!(loaded.settings.window_opacity, 80);
    assert_eq!(loaded.settings.terminal_background_opacity, 75);

    let failing = MemoryStore { fail_writes: true, ..Default::default() };
    assert_eq!(
        persist_opacities(&failing, AppearanceSettings::try_new(80, 75).unwrap()),
        Err("could not save appearance settings: Storage(\"disk \\\"full\\\"\")".to_owned())
    );
}

#[test]
fn storage_errors_show_as_their_debug_text() {
    for error in [
        RepositoryError::NotFound,
        RepositoryError::Conflict,
        RepositoryError::GroupHasHosts,
        RepositoryError::InvalidData,
        RepositoryError::Storage("locked \"db\"\n".into()),
    ] {
        assert_eq!(error.debug_text(), format!("{error:?}"));
    }
    assert_eq!(RepositoryError::Storage("a\\b".into()).debug_text(), "Storage(\"a\\\\b\")");
}

fn sample_host(name: &str) -> Host {
    Host::new(
        ownterm::domain::HostDraft {
            name: name.into(),
            address: format!("{name}.example"),
            port: 22,
            username: Some("ops".into()),
            group_id: None,
            tags: vec![],
            auth: ownterm::domain::AuthMethod::Agent,
            favorite: false,
        },
        Timestamp::from_unix_millis(1),
    )
    .unwrap()
}

#[test]
fn host_save_ends_by_the_vault_and_store_answers() {
    assert!(!host_write_allowed(&Some(Err(VaultError::Platform("denied".into())))));
    assert!(host_write_allowed(&Some(Ok(()))));
    assert!(host_write_allowed(&None));

    let failed_vault = host_save_outcome(sample_host("a"), Some(Err(VaultError::UnsupportedPlatform)), None);
    assert_eq!(failed_vault.result, Err("could not store credential in system vault".to_owned()));
    assert!(!failed_vault.remove_new_secret);

    let failed_write = host_save_outcome(sample_host("b"), Some(Ok(())), Some(Err(RepositoryError::Conflict)));
    assert_eq!(failed_write.result, Err("could not update OwnTerm storage".to_owned()));
    assert!(failed_write.remove_new_secret);

    let failed_plain_write = host_save_outcome(sample_host("c"), None, Some(Err(RepositoryError::NotFound)));
    assert!(failed_plain_write.result.is_err());
    assert!(!failed_plain_write.remove_new_secret);

    let saved = host_save_outcome(sample_host("d"), Some(Ok(())), Some(Ok(())));
    assert_eq!(saved.result.unwrap().name, "d");
    assert!(!saved.remove_new_secret);
}

#[test]
fn recent_listing_keeps_order_skips_gone_hosts_and_stops_at_a_failure() {
    let listed = recent_dtos(vec![Ok(Some(sample_host("x"))), Ok(None), Ok(Some(sample_host("y")))]).unwrap();
    assert_eq!(listed.iter().map(|d| d.name.as_str()).collect::<Vec<_>>(), ["x", "y"]);
    assert_eq!(
        recent_dtos(vec![Ok(Some(sample_host("x"))), Err(RepositoryError::GroupHasHosts), Ok(None)]),
        Err("group still contains hosts; choose to move them first".to_owned())
    );
    assert!(recent_dtos(vec![]).unwrap().is_empty());
    let groups = group_dtos(vec![HostGroup::new("B", 2).unwrap(), HostGroup::new("A", 1).unwrap()]);
    assert_eq!(groups.iter().map(|g| g.name.as_str()).collect::<Vec<_>>(), ["B", "A"]);
}
