//! The desktop commands' decisions: the public data shapes sent to the interface, how
//! Hosts are saved with their secrets, and how appearance changes are checked. The window
//! toolkit and its event loop belong to the shell around this library.
use vstd::prelude::*;
use crate::domain::{opt_view, AuthMethod, Host, HostGroup, SessionDescriptor, SessionKind, SessionStatus, ShellProfile, Timestamp};
use crate::ids::{spec_uuid_parse, uuid_text};
use crate::ids::HostId;
use crate::local_session::SessionEvent;
use crate::portability::{ImportAction, PortableAuthKind, PortableHost};
use crate::repositories::{GroupRemoval, RepositoryError};
use crate::ssh_session::{CredentialKind, SshEvent, TrustAssessment};
use crate::ssh_trust::TrustDecision;
use crate::terminal::TerminalEvent;
use crate::storage::{auth_shape, AuthShape};

verus! {

/// The public name of a session status.
pub open spec fn status_text(status: SessionStatus) -> Seq<char> {
    match status {
        SessionStatus::Starting => "starting"@,
        SessionStatus::AwaitingTrust => "awaiting_trust"@,
        SessionStatus::AwaitingCredential => "awaiting_credential"@,
        SessionStatus::Connected => "connected"@,
        SessionStatus::Disconnected => "disconnected"@,
        SessionStatus::Failed => "failed"@,
    }
}

pub fn status_name(status: SessionStatus) -> (s: &'static str)
    ensures
        s@ == status_text(status),
{
    match status {
        SessionStatus::Starting => "starting",
        SessionStatus::AwaitingTrust => "awaiting_trust",
        SessionStatus::AwaitingCredential => "awaiting_credential",
        SessionStatus::Connected => "connected",
        SessionStatus::Disconnected => "disconnected",
        SessionStatus::Failed => "failed",
    }
}

/// The text the interface is told of a storage failure.
pub open spec fn repository_error_message(error: RepositoryError) -> Seq<char> {
    if error is GroupHasHosts {
        "group still contains hosts; choose to move them first"@
    } else {
        "could not update OwnTerm storage"@
    }
}

/// What the interface is told of a storage failure: only a group that still has Hosts
/// is explained; anything else is a generic failure.
pub fn repository_error(error: RepositoryError) -> (s: String)
    ensures
        s@ == repository_error_message(error),
        error is GroupHasHosts ==> s@ == "group still contains hosts; choose to move them first"@,
        !(error is GroupHasHosts) ==> s@ == "could not update OwnTerm storage"@,
{
    match error {
        RepositoryError::GroupHasHosts => String::from_str("group still contains hosts; choose to move them first"),
        _ => String::from_str("could not update OwnTerm storage"),
    }
}

#[verifier::external_type_specification]
#[verifier::external_body]
pub struct ExSystemTime(std::time::SystemTime);

/// Calls `SystemTime::now`; the clock's reading is not stated.
#[verifier::external_body]
fn clock_now() -> std::time::SystemTime {
    std::time::SystemTime::now()
}

/// Calls `SystemTime::duration_since(UNIX_EPOCH)`; `None` when the time is before the epoch.
#[verifier::external_body]
fn since_epoch(time: &std::time::SystemTime) -> Option<std::time::Duration> {
    time.duration_since(std::time::UNIX_EPOCH).ok()
}

/// Calls `Duration::as_millis`: the whole milliseconds of the duration.
#[verifier::external_body]
fn whole_millis(duration: &std::time::Duration) -> u128 {
    duration.as_millis()
}

/// The timestamp of a clock reading in milliseconds since the epoch, cut to 64 bits as
/// a cast does; a reading before the epoch counts as the epoch.
pub fn timestamp_from_clock(millis: Option<u128>) -> (t: Timestamp)
    ensures
        t.millis() == match millis {
            Some(m) => m as i64,
            None => 0,
        },
{
    match millis {
        Some(m) => Timestamp::from_unix_millis(m as i64),
        None => Timestamp::from_unix_millis(0),
    }
}

/// The current time.
pub fn now() -> Timestamp {
    let clock = clock_now();
    match since_epoch(&clock) {
        Some(d) => timestamp_from_clock(Some(whole_millis(&d))),
        None => timestamp_from_clock(None),
    }
}

/// How many recent Hosts to list: eight unless asked, and never more than fifty.
pub open spec fn recent_limit_of(limit: Option<usize>) -> usize {
    match limit {
        Some(l) => if l < 50 {
            l
        } else {
            50
        },
        None => 8,
    }
}

pub fn recent_limit(limit: Option<usize>) -> (r: usize)
    ensures
        r == recent_limit_of(limit),
{
    let l = match limit {
        Some(l) => l,
        None => 8,
    };
    if l < 50 {
        l
    } else {
        50
    }
}

/// A shell profile as the interface lists it.
#[derive(Clone, Debug, PartialEq, Eq)]
pub struct ShellProfileDto {
    pub id: String,
    pub name: String,
}

impl ShellProfileDto {
    pub fn from_profile(profile: &ShellProfile) -> (d: Self)
        ensures
            d.id@ == uuid_text(profile.id@),
            d.name@ == profile.name@,
    {
        ShellProfileDto { id: profile.id.to_string(), name: profile.name.clone() }
    }
}

/// What a session is attached to, by public identifier.
#[derive(Clone, Debug, PartialEq, Eq)]
pub enum SessionKindDto {
    Local { shell_profile_id: String },
    Ssh { host_id: String },
}

/// A session as the interface sees it.
#[derive(Clone, Debug, PartialEq, Eq)]
pub struct SessionDescriptorDto {
    pub id: String,
    pub kind: SessionKindDto,
    pub title: String,
    pub status: &'static str,
}

impl SessionDescriptorDto {
    pub fn from_descriptor(descriptor: SessionDescriptor) -> (d: Self)
        ensures
            d.id@ == uuid_text(descriptor.id@),
            match descriptor.kind {
                SessionKind::Local { shell_profile_id } => d.kind matches SessionKindDto::Local {
                    shell_profile_id: s,
                } && s@ == uuid_text(shell_profile_id@),
                SessionKind::Ssh { host_id } => d.kind matches SessionKindDto::Ssh { host_id: s }
                    && s@ == uuid_text(host_id@),
            },
            d.title@ == descriptor.title@,
            d.status@ == status_text(descriptor.status),
    {
        let kind = match descriptor.kind {
            SessionKind::Local { shell_profile_id } => SessionKindDto::Local {
                shell_profile_id: shell_profile_id.to_string(),
            },
            SessionKind::Ssh { host_id } => SessionKindDto::Ssh { host_id: host_id.to_string() },
        };
        SessionDescriptorDto {
            id: descriptor.id.to_string(),
            kind,
            title: descriptor.title,
            status: status_name(descriptor.status),
        }
    }
}

/// The public kind of an authentication method.
pub open spec fn auth_kind_text(a: AuthShape) -> Seq<char> {
    match a {
        AuthShape::Password(_) => "password"@,
        AuthShape::PrivateKey(_, _) => "private_key"@,
        AuthShape::Agent => "agent"@,
        AuthShape::NoAuth => "none"@,
    }
}

/// A saved Host as the interface sees it: no secret and no vault reference.
#[derive(Clone, Debug, PartialEq, Eq)]
pub struct HostDto {
    pub id: String,
    pub name: String,
    pub address: String,
    pub port: u16,
    pub username: Option<String>,
    pub group_id: Option<String>,
    pub tags: Vec<String>,
    pub favorite: bool,
    pub auth_kind: &'static str,
    pub private_key_path: Option<String>,
}

/// `d` is the interface form of `h`.
pub open spec fn host_dto_of(h: Host, d: HostDto) -> bool {
    &&& d.id@ == uuid_text(h.id@)
    &&& spec_uuid_parse(d.id@) == Some(h.id@)
    &&& d.name@ == h.name@
    &&& d.address@ == h.address@
    &&& d.port == h.port
    &&& opt_view(d.username) == opt_view(h.username)
    &&& match h.group_id {
        Some(g) => d.group_id matches Some(s) && s@ == uuid_text(g@) && spec_uuid_parse(s@) == Some(g@),
        None => d.group_id is None,
    }
    &&& d.tags == h.tags
    &&& d.favorite == h.favorite
    &&& d.auth_kind@ == auth_kind_text(auth_shape(h.auth))
    &&& opt_view(d.private_key_path) == match auth_shape(h.auth) {
        AuthShape::PrivateKey(p, _) => Some(p),
        _ => None,
    }
}

/// `d` is the interface form of `g`.
pub open spec fn group_dto_of(g: HostGroup, d: HostGroupDto) -> bool {
    &&& d.id@ == uuid_text(g.id@)
    &&& d.name@ == g.name@
    &&& d.sort_order == g.sort_order
}

impl HostDto {
    pub fn from_host(host: Host) -> (d: Self)
        ensures
            host_dto_of(host, d),
            d.id@ == uuid_text(host.id@),
            spec_uuid_parse(d.id@) == Some(host.id@),
            d.name@ == host.name@,
            d.address@ == host.address@,
            d.port == host.port,
            opt_view(d.username) == opt_view(host.username),
            match host.group_id {
                Some(g) => d.group_id matches Some(s) && s@ == uuid_text(g@) && spec_uuid_parse(s@)
                    == Some(g@),
                None => d.group_id is None,
            },
            d.tags == host.tags,
            d.favorite == host.favorite,
            d.auth_kind@ == auth_kind_text(auth_shape(host.auth)),
            opt_view(d.private_key_path) == match auth_shape(host.auth) {
                AuthShape::PrivateKey(p, _) => Some(p),
                _ => None,
            },
    {
        let (auth_kind, private_key_path) = match &host.auth {
            AuthMethod::Password { .. } => ("password", None),
            AuthMethod::PrivateKey { path, .. } => ("private_key", Some(path.clone())),
            AuthMethod::Agent => ("agent", None),
            AuthMethod::NoAuth => ("none", None),
        };
        let group_id = match host.group_id {
            Some(g) => Some(g.to_string()),
            None => None,
        };
        HostDto {
            id: host.id.to_string(),
            name: host.name,
            address: host.address,
            port: host.port,
            username: host.username,
            group_id,
            tags: host.tags,
            favorite: host.favorite,
            auth_kind,
            private_key_path,
        }
    }
}

/// A group as the interface sees it.
#[derive(Clone, Debug, PartialEq, Eq)]
pub struct HostGroupDto {
    pub id: String,
    pub name: String,
    pub sort_order: i32,
}

impl HostGroupDto {
    pub fn from_group(group: HostGroup) -> (d: Self)
        ensures
            group_dto_of(group, d),
            d.id@ == uuid_text(group.id@),
            spec_uuid_parse(d.id@) == Some(group.id@),
            d.name@ == group.name@,
            d.sort_order == group.sort_order,
    {
        HostGroupDto { id: group.id.to_string(), name: group.name, sort_order: group.sort_order }
    }
}

/// Version of the event payloads sent to the interface.
pub const EVENT_VERSION: u8 = 1;

#[derive(Clone, Debug, PartialEq, Eq)]
pub struct SessionOutputEvent {
    pub version: u8,
    pub session_id: String,
    pub data: Vec<u8>,
}

#[derive(Clone, Debug, PartialEq, Eq)]
pub struct SessionStatusEvent {
    pub version: u8,
    pub session_id: String,
    pub status: &'static str,
    pub reason: Option<String>,
}

#[derive(Clone, Debug, PartialEq, Eq)]
pub struct SessionExitEvent {
    pub version: u8,
    pub session_id: String,
    pub exit_code: Option<u32>,
}

#[derive(Clone, Debug, PartialEq, Eq)]
pub struct SessionTrustRequiredEvent {
    pub version: u8,
    pub session_id: String,
    pub destination: String,
    pub port: u16,
    pub algorithm: String,
    pub fingerprint: String,
}

#[derive(Clone, Debug, PartialEq, Eq)]
pub struct SessionCredentialRequiredEvent {
    pub version: u8,
    pub session_id: String,
    pub kind: &'static str,
}

/// An event as the interface receives it.
#[derive(Clone, Debug, PartialEq, Eq)]
pub enum DesktopEvent {
    Output(SessionOutputEvent),
    Status(SessionStatusEvent),
    Exit(SessionExitEvent),
    TrustRequired(SessionTrustRequiredEvent),
    CredentialRequired(SessionCredentialRequiredEvent),
}

impl DesktopEvent {
    /// The channel the event is published on.
    pub fn name(&self) -> (s: &'static str)
        ensures
            s@ == match self {
                DesktopEvent::Output(_) => "session-output-v1"@,
                DesktopEvent::Status(_) => "session-status-v1"@,
                DesktopEvent::Exit(_) => "session-exit-v1"@,
                DesktopEvent::TrustRequired(_) => "session-trust-required-v1"@,
                DesktopEvent::CredentialRequired(_) => "session-credential-required-v1"@,
            },
    {
        match self {
            DesktopEvent::Output(_) => "session-output-v1",
            DesktopEvent::Status(_) => "session-status-v1",
            DesktopEvent::Exit(_) => "session-exit-v1",
            DesktopEvent::TrustRequired(_) => "session-trust-required-v1",
            DesktopEvent::CredentialRequired(_) => "session-credential-required-v1",
        }
    }
}

pub open spec fn credential_kind_text(k: CredentialKind) -> Seq<char> {
    match k {
        CredentialKind::Password => "password"@,
        CredentialKind::Passphrase => "passphrase"@,
    }
}

/// The interface form of an SSH session event, under payload version 1.
pub fn from_ssh_event(event: SshEvent) -> (d: DesktopEvent)
    ensures
        match event {
            SshEvent::Output { session_id, data } => d matches DesktopEvent::Output(p) && p.version
                == 1 && p.session_id@ == uuid_text(session_id@) && p.data == data,
            SshEvent::Status { session_id, status, reason } => d matches DesktopEvent::Status(p)
                && p.version == 1 && p.session_id@ == uuid_text(session_id@) && p.status@
                == status_text(status) && p.reason == reason,
            SshEvent::Exit { session_id, exit_code } => d matches DesktopEvent::Exit(p) && p.version
                == 1 && p.session_id@ == uuid_text(session_id@) && p.exit_code == exit_code,
            SshEvent::TrustRequired { session_id, destination, port, algorithm, fingerprint } => d
                matches DesktopEvent::TrustRequired(p) && p.version == 1 && p.session_id@ == uuid_text(
                session_id@,
            ) && p.destination == destination && p.port == port && p.algorithm == algorithm
                && p.fingerprint == fingerprint,
            SshEvent::CredentialRequired { session_id, kind } => d matches DesktopEvent::CredentialRequired(
                p,
            ) && p.version == 1 && p.session_id@ == uuid_text(session_id@) && p.kind@
                == credential_kind_text(kind),
        },
{
    match event {
        SshEvent::Output { session_id, data } => DesktopEvent::Output(
            SessionOutputEvent { version: EVENT_VERSION, session_id: session_id.to_string(), data },
        ),
        SshEvent::Status { session_id, status, reason } => DesktopEvent::Status(
            SessionStatusEvent {
                version: EVENT_VERSION,
                session_id: session_id.to_string(),
                status: status_name(status),
                reason,
            },
        ),
        SshEvent::Exit { session_id, exit_code } => DesktopEvent::Exit(
            SessionExitEvent { version: EVENT_VERSION, session_id: session_id.to_string(), exit_code },
        ),
        SshEvent::TrustRequired { session_id, destination, port, algorithm, fingerprint } =>
            DesktopEvent::TrustRequired(
            SessionTrustRequiredEvent {
                version: EVENT_VERSION,
                session_id: session_id.to_string(),
                destination,
                port,
                algorithm,
                fingerprint,
            },
        ),
        SshEvent::CredentialRequired { session_id, kind } => DesktopEvent::CredentialRequired(
            SessionCredentialRequiredEvent {
                version: EVENT_VERSION,
                session_id: session_id.to_string(),
                kind: match kind {
                    CredentialKind::Password => "password",
                    CredentialKind::Passphrase => "passphrase",
                },
            },
        ),
    }
}

/// The interface form of a local session event, under payload version 1.
pub fn from_terminal_event(event: TerminalEvent) -> (d: DesktopEvent)
    ensures
        match event {
            TerminalEvent::Output { session_id, data } => d matches DesktopEvent::Output(p)
                && p.version == 1 && p.session_id@ == uuid_text(session_id@) && p.data == data,
            TerminalEvent::Status { session_id, status, reason } => d matches DesktopEvent::Status(p)
                && p.version == 1 && p.session_id@ == uuid_text(session_id@) && p.status@
                == status_text(status) && p.reason == reason,
            TerminalEvent::Exit { session_id, exit_code } => d matches DesktopEvent::Exit(p)
                && p.version == 1 && p.session_id@ == uuid_text(session_id@) && p.exit_code
                == exit_code,
        },
{
    match event {
        TerminalEvent::Output { session_id, data } => DesktopEvent::Output(
            SessionOutputEvent { version: EVENT_VERSION, session_id: session_id.to_string(), data },
        ),
        TerminalEvent::Status { session_id, status, reason } => DesktopEvent::Status(
            SessionStatusEvent {
                version: EVENT_VERSION,
                session_id: session_id.to_string(),
                status: status_name(status),
                reason,
            },
        ),
        TerminalEvent::Exit { session_id, exit_code } => DesktopEvent::Exit(
            SessionExitEvent { version: EVENT_VERSION, session_id: session_id.to_string(), exit_code },
        ),
    }
}

/// The local-session event of the terminal port for a pseudo-terminal event.
pub fn terminal_event_of(event: SessionEvent) -> (t: TerminalEvent)
    ensures
        match event {
            SessionEvent::Output { session_id, data } => t == TerminalEvent::Output { session_id, data },
            SessionEvent::Status { session_id, status, reason } => t == TerminalEvent::Status {
                session_id,
                status,
                reason,
            },
            SessionEvent::Exit { session_id, exit_code } => t == TerminalEvent::Exit { session_id, exit_code },
        },
{
    match event {
        SessionEvent::Output { session_id, data } => TerminalEvent::Output { session_id, data },
        SessionEvent::Status { session_id, status, reason } => TerminalEvent::Status { session_id, status, reason },
        SessionEvent::Exit { session_id, exit_code } => TerminalEvent::Exit { session_id, exit_code },
    }
}

/// Recording a saved Host as recently used happens on the first connection of the
/// session: whether the connection has happened, and the Host to record now, if any.
pub open spec fn recent_step(status: SessionStatus, recorded: bool, host: Option<HostId>) -> (bool, Option<HostId>) {
    if status == SessionStatus::Connected {
        (true, if recorded {
            None
        } else {
            host
        })
    } else {
        (recorded, None)
    }
}

pub fn recent_host_step(status: SessionStatus, recorded: bool, host: Option<HostId>) -> (r: (bool, Option<HostId>))
    ensures
        r == recent_step(status, recorded, host),
{
    if status == SessionStatus::Connected {
        (true, if recorded {
            None
        } else {
            host
        })
    } else {
        (recorded, None)
    }
}

/// The trust store's answer to the SSH driver.
pub fn trust_assessment(decision: TrustDecision) -> (a: TrustAssessment)
    ensures
        a == match decision {
            TrustDecision::Trusted => TrustAssessment::Trusted,
            TrustDecision::ConfirmFirstUse => TrustAssessment::ConfirmFirstUse,
            TrustDecision::Changed => TrustAssessment::Changed,
        },
{
    match decision {
        TrustDecision::Trusted => TrustAssessment::Trusted,
        TrustDecision::ConfirmFirstUse => TrustAssessment::ConfirmFirstUse,
        TrustDecision::Changed => TrustAssessment::Changed,
    }
}

/// What happens to the Hosts of a removed group: moved out when asked, otherwise a group
/// that still has Hosts stays.
pub open spec fn removal_policy(move_hosts_to_ungrouped: bool) -> GroupRemoval {
    if move_hosts_to_ungrouped {
        GroupRemoval::MoveHostsToUngrouped
    } else {
        GroupRemoval::CancelIfNotEmpty
    }
}

pub fn group_removal(move_hosts_to_ungrouped: bool) -> (r: GroupRemoval)
    ensures
        r == removal_policy(move_hosts_to_ungrouped),
{
    if move_hosts_to_ungrouped {
        GroupRemoval::MoveHostsToUngrouped
    } else {
        GroupRemoval::CancelIfNotEmpty
    }
}

/// An imported Host whose password or key must be entered again.
pub open spec fn needs_credential(host: PortableHost, action: ImportAction) -> bool {
    action != ImportAction::Skip && (host.auth_kind == PortableAuthKind::Password || host.auth_kind
        == PortableAuthKind::PrivateKey) && host.credential_required
}

pub open spec fn count_needing(entries: Seq<(PortableHost, ImportAction)>) -> nat
    decreases entries.len(),
{
    if entries.len() == 0 {
        0
    } else {
        count_needing(entries.drop_last()) + if needs_credential(entries.last().0, entries.last().1) {
            1nat
        } else {
            0nat
        }
    }
}

/// How many applied Hosts need a credential configured after an import.
pub fn credentials_to_configure(entries: &[(PortableHost, ImportAction)]) -> (r: usize)
    ensures
        r == count_needing(entries@),
{
    let mut n: usize = 0;
    let mut i: usize = 0;
    assert(entries@.take(0) =~= seq![]);
    while i < entries.len()
        invariant
            i <= entries@.len(),
            n == count_needing(entries@.take(i as int)),
            n <= i,
        decreases entries@.len() - i,
    {
        assert(entries@.take(i + 1).drop_last() =~= entries@.take(i as int));
        assert(entries@.take(i + 1).last() == entries@[i as int]);
        let (host, action) = &entries[i];
        if *action != ImportAction::Skip && (host.auth_kind == PortableAuthKind::Password
            || host.auth_kind == PortableAuthKind::PrivateKey) && host.credential_required {
            n += 1;
        }
        i += 1;
    }
    assert(entries@.take(entries@.len() as int) =~= entries@);
    n
}

/// The run of statuses of one session: whether its Host is recorded as recent, and how
/// many times a record was made.
pub open spec fn recent_run(statuses: Seq<SessionStatus>, host: Option<HostId>) -> (bool, nat)
    decreases statuses.len(),
{
    if statuses.len() == 0 {
        (false, 0)
    } else {
        let before = recent_run(statuses.drop_last(), host);
        let step = recent_step(statuses.last(), before.0, host);
        (step.0, before.1 + if step.1 is Some {
            1nat
        } else {
            0nat
        })
    }
}

/// A saved Host is recorded as recent at most once per session, whatever statuses it goes
/// through.
pub proof fn lemma_recent_recorded_once(statuses: Seq<SessionStatus>, host: Option<HostId>)
    ensures
        recent_run(statuses, host).1 <= 1,
        recent_run(statuses, host).1 == 1 ==> recent_run(statuses, host).0,
    decreases statuses.len(),
{
    if statuses.len() > 0 {
        lemma_recent_recorded_once(statuses.drop_last(), host);
    }
}

} // verus!
