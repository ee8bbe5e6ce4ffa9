//! Synchronous ports for the persisted local configuration.
use vstd::prelude::*;
use crate::domain::{CredentialRef, Host, HostGroup, KnownHost, Timestamp};
use crate::ids::{GroupId, HostId};
use crate::text::{debug_text, spec_debug_text};

verus! {

#[derive(Clone, Debug, PartialEq, Eq)]
pub enum RepositoryError {
    NotFound,
    Conflict,
    GroupHasHosts,
    InvalidData,
    Storage(String),
}

/// The debug text of a storage error: the variant's name, and a storage failure's
/// message quoted.
pub open spec fn repository_error_text(e: RepositoryError) -> Seq<char> {
    match e {
        RepositoryError::NotFound => "NotFound"@,
        RepositoryError::Conflict => "Conflict"@,
        RepositoryError::GroupHasHosts => "GroupHasHosts"@,
        RepositoryError::InvalidData => "InvalidData"@,
        RepositoryError::Storage(m) => "Storage("@ + spec_debug_text(m@) + ")"@,
    }
}

impl RepositoryError {
    /// The error as its derived `Debug` shows it.
    pub fn debug_text(&self) -> (s: String)
        ensures
            s@ == repository_error_text(*self),
    {
        match self {
            RepositoryError::NotFound => String::from_str("NotFound"),
            RepositoryError::Conflict => String::from_str("Conflict"),
            RepositoryError::GroupHasHosts => String::from_str("GroupHasHosts"),
            RepositoryError::InvalidData => String::from_str("InvalidData"),
            RepositoryError::Storage(m) => {
                let mut s = String::from_str("Storage(");
                let quoted = debug_text(m.as_str());
                s.append(quoted.as_str());
                s.append(")");
                s
            },
        }
    }
}

/// Filter for listing Hosts.
#[derive(Clone, Debug, PartialEq, Eq)]
pub struct HostQuery {
    pub search: Option<String>,
    pub group_id: Option<GroupId>,
    pub favorites_only: bool,
}

impl Default for HostQuery {
    /// The query that lists every Host.
    fn default() -> (q: Self)
        ensures
            q.search is None,
            q.group_id is None,
            !q.favorites_only,
    {
        HostQuery { search: None, group_id: None, favorites_only: false }
    }
}

/// What to do with the Hosts of a group that is removed.
#[derive(Clone, Copy, Debug, PartialEq, Eq, Structural)]
pub enum GroupRemoval {
    CancelIfNotEmpty,
    MoveHostsToUngrouped,
}

#[derive(Clone, Debug, PartialEq, Eq)]
pub struct Setting {
    pub key: String,
    pub value: String,
}

#[derive(Clone, Debug, PartialEq, Eq)]
pub struct RecentHost {
    pub host_id: HostId,
    pub opened_at: Timestamp,
}

/// Ports to the stores of the local configuration. Each answer a store gives depends on
/// what it holds; the relations named on a port say of which request an answer is, so that
/// a caller's contract can tie what it reports to what it asked for. A store that states
/// nothing more keeps the default: any answer.
pub trait HostRepository {
    /// `r` is an answer of this store to creating `host`.
    closed spec fn creates_host(&self, host: Host, r: Result<(), RepositoryError>) -> bool {
        true
    }

    /// `r` is an answer of this store to updating the Host to `host`.
    closed spec fn updates_host(&self, host: Host, r: Result<(), RepositoryError>) -> bool {
        true
    }

    /// `r` is an answer of this store to looking up the Host `id`.
    closed spec fn finds_host(&self, id: HostId, r: Result<Option<Host>, RepositoryError>) -> bool {
        true
    }

    /// `r` is an answer of this store to removing the Host `id`.
    closed spec fn deletes_host(&self, id: HostId, r: Result<Vec<CredentialRef>, RepositoryError>) -> bool {
        true
    }

    /// `r` is an answer of this store to listing the Hosts `query` selects.
    closed spec fn lists_hosts(&self, query: HostQuery, r: Result<Vec<Host>, RepositoryError>) -> bool {
        true
    }

    fn create_host(&self, host: &Host) -> (r: Result<(), RepositoryError>)
        ensures
            self.creates_host(*host, r),
    ;

    fn update_host(&self, host: &Host) -> (r: Result<(), RepositoryError>)
        ensures
            self.updates_host(*host, r),
    ;

    /// Removes the Host and queues its now unused references for vault cleanup.
    fn delete_host(&self, id: HostId) -> (r: Result<Vec<CredentialRef>, RepositoryError>)
        ensures
            self.deletes_host(id, r),
    ;

    fn get_host(&self, id: HostId) -> (r: Result<Option<Host>, RepositoryError>)
        ensures
            self.finds_host(id, r),
    ;

    fn list_hosts(&self, query: &HostQuery) -> (r: Result<Vec<Host>, RepositoryError>)
        ensures
            self.lists_hosts(*query, r),
    ;
}

pub trait GroupRepository {
    /// `r` is an answer of this store to creating `group`.
    closed spec fn creates_group(&self, group: HostGroup, r: Result<(), RepositoryError>) -> bool {
        true
    }

    /// `r` is an answer of this store to updating the group to `group`.
    closed spec fn updates_group(&self, group: HostGroup, r: Result<(), RepositoryError>) -> bool {
        true
    }

    /// `r` is an answer of this store to removing the group `id` under `removal`.
    closed spec fn deletes_group(&self, id: GroupId, removal: GroupRemoval, r: Result<(), RepositoryError>) -> bool {
        true
    }

    /// `r` is an answer of this store to listing the groups.
    closed spec fn lists_groups(&self, r: Result<Vec<HostGroup>, RepositoryError>) -> bool {
        true
    }

    fn create_group(&self, group: &HostGroup) -> (r: Result<(), RepositoryError>)
        ensures
            self.creates_group(*group, r),
    ;

    fn update_group(&self, group: &HostGroup) -> (r: Result<(), RepositoryError>)
        ensures
            self.updates_group(*group, r),
    ;

    fn delete_group(&self, id: GroupId, removal: GroupRemoval) -> (r: Result<(), RepositoryError>)
        ensures
            self.deletes_group(id, removal, r),
    ;

    fn list_groups(&self) -> (r: Result<Vec<HostGroup>, RepositoryError>)
        ensures
            self.lists_groups(r),
    ;
}

pub trait SettingsRepository {
    /// `r` is an answer of this store to saving `setting`.
    closed spec fn sets_setting(&self, setting: Setting, r: Result<(), RepositoryError>) -> bool {
        true
    }

    /// `r` is an answer of this store to reading the setting `key`.
    closed spec fn gets_setting(&self, key: Seq<char>, r: Result<Option<Setting>, RepositoryError>) -> bool {
        true
    }

    /// `r` is an answer of this store to listing the settings.
    closed spec fn lists_settings(&self, r: Result<Vec<Setting>, RepositoryError>) -> bool {
        true
    }

    fn set_setting(&self, setting: &Setting) -> (r: Result<(), RepositoryError>)
        ensures
            self.sets_setting(*setting, r),
    ;

    fn get_setting(&self, key: &str) -> (r: Result<Option<Setting>, RepositoryError>)
        ensures
            self.gets_setting(key@, r),
    ;

    fn list_settings(&self) -> (r: Result<Vec<Setting>, RepositoryError>)
        ensures
            self.lists_settings(r),
    ;
}

pub trait RecentHostRepository {
    /// `r` is an answer of this store to recording `recent`.
    closed spec fn records_recent(&self, recent: RecentHost, r: Result<(), RepositoryError>) -> bool {
        true
    }

    /// `r` is an answer of this store to listing at most `limit` recent Hosts.
    closed spec fn lists_recent(&self, limit: usize, r: Result<Vec<RecentHost>, RepositoryError>) -> bool {
        true
    }

    fn record_recent(&self, recent: &RecentHost) -> (r: Result<(), RepositoryError>)
        ensures
            self.records_recent(*recent, r),
    ;

    fn list_recent(&self, limit: usize) -> (r: Result<Vec<RecentHost>, RepositoryError>)
        ensures
            self.lists_recent(limit, r),
    ;
}

pub trait KnownHostRepository {
    /// `r` is an answer of this store to looking up the key of `destination` and `port`.
    closed spec fn finds_known_host(&self, destination: Seq<char>, port: u16, r: Result<Option<KnownHost>, RepositoryError>) -> bool {
        true
    }

    /// `r` is an answer of this store to recording `known_host`.
    closed spec fn inserts_known_host(&self, known_host: KnownHost, r: Result<(), RepositoryError>) -> bool {
        true
    }

    /// `r` is an answer of this store to forgetting the key of `destination` and `port`.
    closed spec fn removes_known_host(&self, destination: Seq<char>, port: u16, r: Result<(), RepositoryError>) -> bool {
        true
    }

    /// `r` is an answer of this store to listing the known keys.
    closed spec fn lists_known_hosts(&self, r: Result<Vec<KnownHost>, RepositoryError>) -> bool {
        true
    }

    fn find_known_host(&self, destination: &str, port: u16) -> (r: Result<
        Option<KnownHost>,
        RepositoryError,
    >)
        ensures
            self.finds_known_host(destination@, port, r),
    ;

    fn insert_known_host(&self, known_host: &KnownHost) -> (r: Result<(), RepositoryError>)
        ensures
            self.inserts_known_host(*known_host, r),
    ;

    fn remove_known_host(&self, destination: &str, port: u16) -> (r: Result<(), RepositoryError>)
        ensures
            self.removes_known_host(destination@, port, r),
    ;

    fn list_known_hosts(&self) -> (r: Result<Vec<KnownHost>, RepositoryError>)
        ensures
            self.lists_known_hosts(r),
    ;
}

pub trait CredentialCleanupRepository {
    /// `r` is an answer of this store to whether a Host still uses `reference`.
    closed spec fn checks_reference(&self, reference: Seq<char>, r: Result<bool, RepositoryError>) -> bool {
        true
    }

    /// `r` is an answer of this store to listing the references queued for cleanup.
    closed spec fn lists_pending(&self, r: Result<Vec<CredentialRef>, RepositoryError>) -> bool {
        true
    }

    /// `r` is an answer of this store to taking `reference` off the cleanup queue.
    closed spec fn completes_cleanup(&self, reference: Seq<char>, r: Result<(), RepositoryError>) -> bool {
        true
    }

    fn is_credential_referenced(&self, reference: &CredentialRef) -> (r: Result<bool, RepositoryError>)
        ensures
            self.checks_reference(reference@, r),
    ;

    fn list_pending_credential_cleanup(&self) -> (r: Result<Vec<CredentialRef>, RepositoryError>)
        ensures
            self.lists_pending(r),
    ;

    fn complete_credential_cleanup(&self, reference: &CredentialRef) -> (r: Result<
        (),
        RepositoryError,
    >)
        ensures
            self.completes_cleanup(reference@, r),
    ;
}

} // verus!
