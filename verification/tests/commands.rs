use std::cell::RefCell;

use ownterm::appearance::AppearanceSettings;
use ownterm::appearance_editor::{appearance_settings_from_store, persist_opacities};
use ownterm::commands::{
    delete_host_group, export_workspace_document, list_host_groups, list_hosts, list_recent_hosts,
    preview_openssh_import, record_recent_host, save_host_group, SaveGroupRequest,
};
use ownterm::domain::{AuthMethod, Host, HostDraft, HostGroup, Timestamp};
use ownterm::ids::{GroupId, HostId};
use ownterm::repositories::{
    GroupRemoval, GroupRepository, HostQuery, HostRepository, RecentHost, RecentHostRepository,
    RepositoryError, Setting, SettingsRepository,
};

/// A store that writes down every request and answers from fixed data; a request whose
/// name is in `failing` is answered with a storage failure.
#[derive(Default)]
struct Probe {
    asked: RefCell<Vec<String>>,
    hosts: Vec<Host>,
    groups: Vec<HostGroup>,
    recent: Vec<RecentHost>,
    settings: Vec<Setting>,
    failing: Vec<&'static str>,
}

impl Probe {
    fn ask(&self, request: String, name: &'static str) -> Result<(), RepositoryError> {
        self.asked.borrow_mut().push(request);
        if self.failing.contains(&name) {
            Err(RepositoryError::Storage("down".into()))
        } else {
            Ok(())
        }
    }
    fn asked(&self) -> Vec<String> {
        self.asked.borrow().clone()
    }
}

impl HostRepository for Probe {
    fn create_host(&self, host: &Host) -> Result<(), RepositoryError> {
        self.ask(format!("create_host {}", host.name), "create_host")
    }
    fn update_host(&self, host: &Host) -> Result<(), RepositoryError> {
        self.ask(format!("update_host {}", host.name), "update_host")
    }
    fn delete_host(&self, id: HostId) -> Result<Vec<ownterm::domain::CredentialRef>, RepositoryError> {
        self.ask(format!("delete_host {}", id.to_string()), "delete_host").map(|_| Vec::new())
    }
    fn get_host(&self, id: HostId) -> Result<Option<Host>, RepositoryError> {
        let failing = self.failing.contains(&"get_host") && id.as_u128() == 3;
        self.asked.borrow_mut().push(format!("get_host {}", id.as_u128()));
        if failing {
            return Err(RepositoryError::Conflict);
        }
        Ok(self.hosts.iter().find(|h| h.id == id).cloned())
    }
    fn list_hosts(&self, query: &HostQuery) -> Result<Vec<Host>, RepositoryError> {
        self.ask(
            format!("list_hosts {:?} {:?} {}", query.search, query.group_id, query.favorites_only),
            "list_hosts",
        )
        .map(|_| self.hosts.clone())
    }
}

impl GroupRepository for Probe {
    fn create_group(&self, group: &HostGroup) -> Result<(), RepositoryError> {
        self.ask(format!("create_group {} {}", group.name, group.sort_order), "create_group")
    }
    fn update_group(&self, group: &HostGroup) -> Result<(), RepositoryError> {
        self.ask(
            format!("update_group {} {} {}", group.id.as_u128(), group.name, group.sort_order),
            "update_group",
        )
    }
    fn delete_group(&self, id: GroupId, removal: GroupRemoval) -> Result<(), RepositoryError> {
        self.ask(format!("delete_group {} {:?}", id.as_u128(), removal), "delete_group")
    }
    fn list_groups(&self) -> Result<Vec<HostGroup>, RepositoryError> {
        self.ask("list_groups".into(), "list_groups").map(|_| self.groups.clone())
    }
}

impl SettingsRepository for Probe {
    fn set_setting(&self, setting: &Setting) -> Result<(), RepositoryError> {
        let name = if setting.key == "appearance.windowOpacity" { "set_window" } else { "set_terminal" };
        self.ask(format!("set_setting {}={}", setting.key, setting.value), name)
    }
    fn get_setting(&self, key: &str) -> Result<Option<Setting>, RepositoryError> {
        let name = if key == "appearance.windowOpacity" { "get_window" } else { "get_terminal" };
        self.ask(format!("get_setting {key}"), name)
            .map(|_| self.settings.iter().find(|s| s.key == key).cloned())
    }
    fn list_settings(&self) -> Result<Vec<Setting>, RepositoryError> {
        self.ask("list_settings".into(), "list_settings").map(|_| self.settings.clone())
    }
}

impl RecentHostRepository for Probe {
    fn record_recent(&self, recent: &RecentHost) -> Result<(), RepositoryError> {
        self.ask(
            format!("record_recent {} {}", recent.host_id.as_u128(), recent.opened_at.as_unix_millis()),
            "record_recent",
        )
    }
    fn list_recent(&self, limit: usize) -> Result<Vec<RecentHost>, RepositoryError> {
        self.ask(format!("list_recent {limit}"), "list_recent").map(|_| self.recent.clone())
    }
}

fn host(id: u128, name: &str) -> Host {
    let draft = HostDraft {
        name: name.into(),
        address: format!("{name}.example"),
        port: 22,
        username: None,
        group_id: None,
        tags: vec![],
        auth: AuthMethod::Agent,
        favorite: false,
    };
    Host::rehydrate(HostId::from_u128(id), draft, Timestamp::from_unix_millis(1), Timestamp::from_unix_millis(1))
        .unwrap()
}

fn entry(id: u128) -> RecentHost {
    RecentHost { host_id: HostId::from_u128(id), opened_at: Timestamp::from_unix_millis(id as i64) }
}

#[test]
fn host_listing_hands_the_search_to_the_store() {
    let store = Probe { hosts: vec![host(1, "alpha"), host(2, "beta")], ..Probe::default() };
    let listed = list_hosts(&store, Some("al".into())).unwrap();
    assert_eq!(store.asked(), ["list_hosts Some(\"al\") None false"]);
    assert_eq!(listed.iter().map(|d| d.name.as_str()).collect::<Vec<_>>(), ["alpha", "beta"]);

    let broken = Probe { failing: vec!["list_hosts"], ..Probe::default() };
    assert_eq!(list_hosts(&broken, None).unwrap_err(), "could not update OwnTerm storage");
    assert_eq!(broken.asked(), ["list_hosts None None false"]);
}

#[test]
fn recent_hosts_are_looked_up_in_order_until_the_first_failure() {
    let store = Probe {
        hosts: vec![host(1, "one"), host(4, "four")],
        recent: vec![entry(4), entry(2), entry(1)],
        ..Probe::default()
    };
    let listed = list_recent_hosts(&store, Some(70)).unwrap();
    assert_eq!(listed.iter().map(|d| d.name.as_str()).collect::<Vec<_>>(), ["four", "one"]);
    assert_eq!(store.asked(), ["list_recent 50", "get_host 4", "get_host 2", "get_host 1"]);

    let failing = Probe {
        hosts: vec![host(1, "one")],
        recent: vec![entry(1), entry(3), entry(1)],
        failing: vec!["get_host"],
        ..Probe::default()
    };
    assert_eq!(list_recent_hosts(&failing, None).unwrap_err(), "could not update OwnTerm storage");
    assert_eq!(failing.asked(), ["list_recent 8", "get_host 1", "get_host 3"]);
}

#[test]
fn group_commands_send_the_parsed_request() {
    let store = Probe::default();
    let created = save_host_group(&store, SaveGroupRequest { id: None, name: " Ops ".into(), sort_order: 4 }).unwrap();
    assert_eq!((created.name.as_str(), created.sort_order), ("Ops", 4));
    let id = GroupId::from_u128(7).to_string();
    let updated = save_host_group(&store, SaveGroupRequest { id: Some(id.clone()), name: "Web".into(), sort_order: 1 }).unwrap();
    assert_eq!(updated.id, id);
    delete_host_group(&store, &id, true).unwrap();
    delete_host_group(&store, &id, false).unwrap();
    assert_eq!(
        store.asked(),
        [
            "create_group Ops 4",
            "update_group 7 Web 1",
            "delete_group 7 MoveHostsToUngrouped",
            "delete_group 7 CancelIfNotEmpty",
        ]
    );

    let broken = Probe { failing: vec!["update_group", "list_groups"], ..Probe::default() };
    assert_eq!(
        save_host_group(&broken, SaveGroupRequest { id: Some(id), name: "Web".into(), sort_order: 1 }).unwrap_err(),
        "could not update OwnTerm storage"
    );
    assert_eq!(list_host_groups(&broken).unwrap_err(), "could not update OwnTerm storage");
}

#[test]
fn opening_a_host_is_recorded_with_its_time() {
    let store = Probe::default();
    let id = HostId::from_u128(5).to_string();
    record_recent_host(&store, &id, Timestamp::from_unix_millis(99)).unwrap();
    assert_eq!(store.asked(), ["record_recent 5 99"]);
    let broken = Probe { failing: vec!["record_recent"], ..Probe::default() };
    assert_eq!(
        record_recent_host(&broken, &id, Timestamp::from_unix_millis(1)).unwrap_err(),
        "could not update OwnTerm storage"
    );
}

#[test]
fn export_reads_groups_hosts_and_settings_and_stops_at_a_failure() {
    let store = Probe {
        hosts: vec![host(1, "one")],
        settings: vec![Setting { key: "theme".into(), value: "light".into() }],
        ..Probe::default()
    };
    let document = export_workspace_document(&store, "now".into()).unwrap();
    assert_eq!(document.hosts.len(), 1);
    assert_eq!(document.settings, vec![("theme".to_owned(), "light".to_owned())]);
    assert_eq!(store.asked(), ["list_groups", "list_hosts None None false", "list_settings"]);

    let broken = Probe { failing: vec!["list_hosts"], ..Probe::default() };
    assert!(export_workspace_document(&broken, "now".into()).is_err());
    assert_eq!(broken.asked(), ["list_groups", "list_hosts None None false"]);

    let preview = Probe { hosts: vec![host(1, "one")], ..Probe::default() };
    let p = preview_openssh_import(&preview, "Host one\n  HostName one.example\n").unwrap();
    assert_eq!(preview.asked(), ["list_hosts None None false"]);
    assert_eq!(p.entries.len(), 1);
}

#[test]
fn appearance_storage_is_read_and_written_window_first() {
    let store = Probe {
        settings: vec![
            Setting { key: "appearance.windowOpacity".into(), value: "90".into() },
            Setting { key: "appearance.terminalBackgroundOpacity".into(), value: "60".into() },
        ],
        ..Probe::default()
    };
    let loaded = appearance_settings_from_store(&store).unwrap();
    assert_eq!((loaded.settings.window_opacity, loaded.settings.terminal_background_opacity), (90, 60));
    assert!(!loaded.defaults_applied);
    assert_eq!(
        store.asked(),
        ["get_setting appearance.windowOpacity", "get_setting appearance.terminalBackgroundOpacity"]
    );

    let unreadable = Probe { failing: vec!["get_window"], ..Probe::default() };
    assert_eq!(
        appearance_settings_from_store(&unreadable).unwrap_err(),
        "could not read appearance settings: Storage(\"down\")"
    );
    assert_eq!(unreadable.asked(), ["get_setting appearance.windowOpacity"]);

    let writer = Probe { failing: vec!["set_terminal"], ..Probe::default() };
    assert_eq!(
        persist_opacities(&writer, AppearanceSettings::try_new(70, 55).unwrap()).unwrap_err(),
        "could not save appearance settings: Storage(\"down\")"
    );
    assert_eq!(
        writer.asked(),
        ["set_setting appearance.windowOpacity=70", "set_setting appearance.terminalBackgroundOpacity=55"]
    );
    let stopped = Probe { failing: vec!["set_window"], ..Probe::default() };
    assert!(persist_opacities(&stopped, AppearanceSettings::try_new(70, 55).unwrap()).is_err());
    assert_eq!(stopped.asked(), ["set_setting appearance.windowOpacity=70"]);
}
