//! Interactive SSH sessions: events, errors, and the decisions the session driver takes
//! (host-key trust, credential prompts, the command/channel loop, the final report).
//! The SSH protocol, the async runtime and the threads belong to the adapter.
use vstd::prelude::*;
use crate::domain::{SessionDescriptor, SessionKind, SessionStatus};
use crate::ids::{HostId, SessionId};
use crate::ssh::ResolvedSshHost;
use crate::text::trim;
use crate::vault::SecretValue;

verus! {

pub const MAX_DIMENSION: u16 = 1000;

/// What the trust store says of a presented host key.
#[derive(Clone, Copy, Debug, PartialEq, Eq, Structural)]
pub enum TrustAssessment {
    Trusted,
    ConfirmFirstUse,
    Changed,
}

/// Which secret a prompt asks for.
#[derive(Clone, Copy, Debug, PartialEq, Eq, Structural)]
pub enum CredentialKind {
    Password,
    Passphrase,
}

/// What an SSH session reports.
#[derive(Clone, Debug, PartialEq, Eq)]
pub enum SshEvent {
    Output { session_id: SessionId, data: Vec<u8> },
    Status { session_id: SessionId, status: SessionStatus, reason: Option<String> },
    Exit { session_id: SessionId, exit_code: Option<u32> },
    TrustRequired {
        session_id: SessionId,
        destination: String,
        port: u16,
        algorithm: String,
        fingerprint: String,
    },
    CredentialRequired { session_id: SessionId, kind: CredentialKind },
}

pub enum SshEventView {
    Output { session_id: SessionId, data: Seq<u8> },
    Status { session_id: SessionId, status: SessionStatus, reason: Option<Seq<char>> },
    Exit { session_id: SessionId, exit_code: Option<u32> },
    TrustRequired {
        session_id: SessionId,
        destination: Seq<char>,
        port: u16,
        algorithm: Seq<char>,
        fingerprint: Seq<char>,
    },
    CredentialRequired { session_id: SessionId, kind: CredentialKind },
}

pub open spec fn text_view(r: Option<String>) -> Option<Seq<char>> {
    match r {
        Some(s) => Some(s@),
        None => None,
    }
}

impl View for SshEvent {
    type V = SshEventView;

    open spec fn view(&self) -> SshEventView {
        match self {
            SshEvent::Output { session_id, data } => SshEventView::Output {
                session_id: *session_id,
                data: data@,
            },
            SshEvent::Status { session_id, status, reason } => SshEventView::Status {
                session_id: *session_id,
                status: *status,
                reason: text_view(*reason),
            },
            SshEvent::Exit { session_id, exit_code } => SshEventView::Exit {
                session_id: *session_id,
                exit_code: *exit_code,
            },
            SshEvent::TrustRequired { session_id, destination, port, algorithm, fingerprint } =>
                SshEventView::TrustRequired {
                session_id: *session_id,
                destination: destination@,
                port: *port,
                algorithm: algorithm@,
                fingerprint: fingerprint@,
            },
            SshEvent::CredentialRequired { session_id, kind } => SshEventView::CredentialRequired {
                session_id: *session_id,
                kind: *kind,
            },
        }
    }
}

pub open spec fn ssh_views(v: Seq<SshEvent>) -> Seq<SshEventView> {
    v.map_values(|e: SshEvent| e@)
}

/// Receives the events of SSH sessions.
pub trait SshEventSink: Send + Sync {
    fn emit(&self, event: SshEvent);
}

/// Decides and records which host keys are trusted.
pub trait SshTrustStore: Send + Sync {
    fn assess(&self, destination: &str, port: u16, algorithm: &str, fingerprint: &str) -> Result<
        TrustAssessment,
        SshError,
    >;

    fn accept(&self, destination: &str, port: u16, algorithm: &str, fingerprint: &str) -> Result<
        (),
        SshError,
    >;
}

/// SSH failures; their messages never carry key material or secrets.
#[derive(Clone, Copy, Debug, PartialEq, Eq, Structural)]
pub enum SshError {
    InvalidSize,
    SessionNotFound,
    ConnectionFailed,
    ConnectionTimedOut,
    HostKeyChanged,
    TrustRejected,
    TrustTimedOut,
    CredentialRequired,
    CredentialTimedOut,
    AuthenticationFailed,
    KeyUnavailable,
    ChannelFailed,
    StateUnavailable,
}

pub open spec fn ssh_error_text(e: SshError) -> Seq<char> {
    match e {
        SshError::InvalidSize => "terminal dimensions are invalid"@,
        SshError::SessionNotFound => "SSH session was not found"@,
        SshError::ConnectionFailed => "SSH connection failed"@,
        SshError::ConnectionTimedOut => "SSH connection timed out"@,
        SshError::HostKeyChanged => "SSH host identity changed; review Known Hosts before reconnecting"@,
        SshError::TrustRejected => "SSH host identity was rejected"@,
        SshError::TrustTimedOut => "SSH host identity confirmation timed out"@,
        SshError::CredentialRequired => "SSH credential is required"@,
        SshError::CredentialTimedOut => "SSH credential prompt timed out"@,
        SshError::AuthenticationFailed => "SSH authentication failed"@,
        SshError::KeyUnavailable => "SSH private key could not be loaded"@,
        SshError::ChannelFailed => "SSH terminal channel failed"@,
        SshError::StateUnavailable => "SSH session state is unavailable"@,
    }
}

impl SshError {
    pub fn message(&self) -> (s: &'static str)
        ensures
            s@ == ssh_error_text(*self),
    {
        match self {
            SshError::InvalidSize => "terminal dimensions are invalid",
            SshError::SessionNotFound => "SSH session was not found",
            SshError::ConnectionFailed => "SSH connection failed",
            SshError::ConnectionTimedOut => "SSH connection timed out",
            SshError::HostKeyChanged => "SSH host identity changed; review Known Hosts before reconnecting",
            SshError::TrustRejected => "SSH host identity was rejected",
            SshError::TrustTimedOut => "SSH host identity confirmation timed out",
            SshError::CredentialRequired => "SSH credential is required",
            SshError::CredentialTimedOut => "SSH credential prompt timed out",
            SshError::AuthenticationFailed => "SSH authentication failed",
            SshError::KeyUnavailable => "SSH private key could not be loaded",
            SshError::ChannelFailed => "SSH terminal channel failed",
            SshError::StateUnavailable => "SSH session state is unavailable",
        }
    }
}

pub open spec fn remote_size_valid(rows: u16, columns: u16) -> bool {
    1 <= rows <= MAX_DIMENSION && 1 <= columns <= MAX_DIMENSION
}

/// Checks the remote terminal dimensions.
pub fn validate_size(rows: u16, columns: u16) -> (r: Result<(), SshError>)
    ensures
        remote_size_valid(rows, columns) ==> r is Ok,
        !remote_size_valid(rows, columns) ==> r == Err::<(), SshError>(SshError::InvalidSize),
{
    if rows == 0 || columns == 0 || rows > MAX_DIMENSION || columns > MAX_DIMENSION {
        Err(SshError::InvalidSize)
    } else {
        Ok(())
    }
}

/// The descriptor of a session to a saved Host: the size must be valid, the target must
/// name its Host and have a title.
pub fn saved_session_descriptor(target: &ResolvedSshHost, rows: u16, columns: u16) -> (r: Result<
    SessionDescriptor,
    SshError,
>)
    ensures
        !remote_size_valid(rows, columns) ==> r == Err::<SessionDescriptor, SshError>(
            SshError::InvalidSize,
        ),
        remote_size_valid(rows, columns) && (target.host_id is None || trim(target.title@).len()
            == 0) ==> r == Err::<SessionDescriptor, SshError>(SshError::ConnectionFailed),
        remote_size_valid(rows, columns) && target.host_id is Some && trim(target.title@).len()
            > 0 ==> (r matches Ok(d) && d.kind == (SessionKind::Ssh {
            host_id: target.host_id->0,
        }) && d.title@ == trim(target.title@) && d.status == SessionStatus::Starting),
{
    match validate_size(rows, columns) {
        Ok(()) => {},
        Err(e) => {
            return Err(e);
        },
    }
    let host_id = match target.host_id {
        Some(id) => id,
        None => {
            return Err(SshError::ConnectionFailed);
        },
    };
    match SessionDescriptor::new(SessionKind::Ssh { host_id }, target.title.as_str(), SessionStatus::Starting) {
        Ok(d) => Ok(d),
        Err(_) => Err(SshError::ConnectionFailed),
    }
}

/// The descriptor of a quick-connect session, attached to a fresh Host identifier.
pub fn quick_connect_descriptor(target: &ResolvedSshHost, rows: u16, columns: u16) -> (r: Result<
    SessionDescriptor,
    SshError,
>)
    ensures
        !remote_size_valid(rows, columns) ==> r == Err::<SessionDescriptor, SshError>(
            SshError::InvalidSize,
        ),
        remote_size_valid(rows, columns) && trim(target.title@).len() == 0 ==> r == Err::<
            SessionDescriptor,
            SshError,
        >(SshError::ConnectionFailed),
        remote_size_valid(rows, columns) && trim(target.title@).len() > 0 ==> (r matches Ok(d)
            && d.kind is Ssh && d.title@ == trim(target.title@) && d.status
            == SessionStatus::Starting),
{
    match validate_size(rows, columns) {
        Ok(()) => {},
        Err(e) => {
            return Err(e);
        },
    }
    match SessionDescriptor::new(
        SessionKind::Ssh { host_id: HostId::new() },
        target.title.as_str(),
        SessionStatus::Starting,
    ) {
        Ok(d) => Ok(d),
        Err(_) => Err(SshError::ConnectionFailed),
    }
}

pub open spec fn failed_view(id: SessionId, e: SshError) -> SshEventView {
    SshEventView::Status { session_id: id, status: SessionStatus::Failed, reason: Some(ssh_error_text(e)) }
}

fn failed_event(id: SessionId, e: SshError) -> (r: SshEvent)
    ensures
        r@ == failed_view(id, e),
{
    SshEvent::Status { session_id: id, status: SessionStatus::Failed, reason: Some(String::from_str(e.message())) }
}

/// How the server key check answers.
#[derive(Clone, Copy, Debug, PartialEq, Eq, Structural)]
pub enum HostKeyCheck {
    Accept,
    Refuse,
    Prompt,
}

/// The answer to a server key, whether the session becomes inactive, and what to emit.
pub struct HostKeyDecision {
    pub check: HostKeyCheck,
    pub deactivate: bool,
    pub events: Vec<SshEvent>,
}

/// Strict trust on first use: a known key is accepted, a changed one fails the session,
/// a new one is put to the user, and a store failure refuses the key.
pub open spec fn host_key_outcome(
    id: SessionId,
    assessment: Result<TrustAssessment, SshError>,
    destination: Seq<char>,
    port: u16,
    algorithm: Seq<char>,
    fingerprint: Seq<char>,
) -> (HostKeyCheck, bool, Seq<SshEventView>) {
    match assessment {
        Ok(TrustAssessment::Trusted) => (HostKeyCheck::Accept, false, seq![]),
        Ok(TrustAssessment::Changed) => (
            HostKeyCheck::Refuse,
            true,
            seq![failed_view(id, SshError::HostKeyChanged)],
        ),
        Ok(TrustAssessment::ConfirmFirstUse) => (
            HostKeyCheck::Prompt,
            false,
            seq![
                SshEventView::Status { session_id: id, status: SessionStatus::AwaitingTrust, reason: None },
                SshEventView::TrustRequired { session_id: id, destination, port, algorithm, fingerprint },
            ],
        ),
        Err(_) => (HostKeyCheck::Refuse, false, seq![]),
    }
}

pub fn host_key_decision(
    id: SessionId,
    assessment: Result<TrustAssessment, SshError>,
    destination: &str,
    port: u16,
    algorithm: &str,
    fingerprint: &str,
) -> (r: HostKeyDecision)
    ensures
        (r.check, r.deactivate, ssh_views(r.events@)) == host_key_outcome(
            id,
            assessment,
            destination@,
            port,
            algorithm@,
            fingerprint@,
        ),
{
    let mut events: Vec<SshEvent> = Vec::new();
    let r = match assessment {
        Ok(TrustAssessment::Trusted) => HostKeyDecision { check: HostKeyCheck::Accept, deactivate: false, events },
        Ok(TrustAssessment::Changed) => {
            events.push(failed_event(id, SshError::HostKeyChanged));
            HostKeyDecision { check: HostKeyCheck::Refuse, deactivate: true, events }
        },
        Ok(TrustAssessment::ConfirmFirstUse) => {
            events.push(SshEvent::Status { session_id: id, status: SessionStatus::AwaitingTrust, reason: None });
            events.push(
                SshEvent::TrustRequired {
                    session_id: id,
                    destination: destination.to_owned(),
                    port,
                    algorithm: algorithm.to_owned(),
                    fingerprint: fingerprint.to_owned(),
                },
            );
            HostKeyDecision { check: HostKeyCheck::Prompt, deactivate: false, events }
        },
        Err(_) => HostKeyDecision { check: HostKeyCheck::Refuse, deactivate: false, events },
    };
    assert(ssh_views(r.events@) =~= host_key_outcome(id, assessment, destination@, port, algorithm@, fingerprint@).2);
    r
}

/// How a prompt to the user ended.
pub enum PromptReply<T> {
    Answered(T),
    TimedOut,
    Abandoned,
}

/// What follows the user's answer about a new host key.
pub struct TrustReplyDecision {
    pub persist: bool,
    pub deactivate: bool,
    pub events: Vec<SshEvent>,
}

/// An accepted key is recorded while the session is active; a rejection or a timeout
/// ends the session (reported only if it was still active); anything else refuses quietly.
pub open spec fn trust_reply_outcome(id: SessionId, reply: PromptReply<bool>, active: bool) -> (
    bool,
    bool,
    Seq<SshEventView>,
) {
    match reply {
        PromptReply::Answered(true) => if active {
            (true, false, seq![])
        } else {
            (false, false, seq![])
        },
        PromptReply::Answered(false) => (
            false,
            true,
            if active {
                seq![failed_view(id, SshError::TrustRejected)]
            } else {
                seq![]
            },
        ),
        PromptReply::TimedOut => (
            false,
            true,
            if active {
                seq![failed_view(id, SshError::TrustTimedOut)]
            } else {
                seq![]
            },
        ),
        PromptReply::Abandoned => (false, false, seq![]),
    }
}

pub fn trust_reply_decision(id: SessionId, reply: PromptReply<bool>, active: bool) -> (r: TrustReplyDecision)
    ensures
        (r.persist, r.deactivate, ssh_views(r.events@)) == trust_reply_outcome(id, reply, active),
{
    let mut events: Vec<SshEvent> = Vec::new();
    let r = match reply {
        PromptReply::Answered(true) => TrustReplyDecision { persist: active, deactivate: false, events },
        PromptReply::Answered(false) => {
            if active {
                events.push(failed_event(id, SshError::TrustRejected));
            }
            TrustReplyDecision { persist: false, deactivate: true, events }
        },
        PromptReply::TimedOut => {
            if active {
                events.push(failed_event(id, SshError::TrustTimedOut));
            }
            TrustReplyDecision { persist: false, deactivate: true, events }
        },
        PromptReply::Abandoned => TrustReplyDecision { persist: false, deactivate: false, events },
    };
    assert(ssh_views(r.events@) =~= trust_reply_outcome(id, reply, active).2);
    r
}

/// The events that announce a credential prompt.
pub fn credential_prompt_events(id: SessionId, kind: CredentialKind) -> (r: Vec<SshEvent>)
    ensures
        ssh_views(r@) == seq![
            SshEventView::Status { session_id: id, status: SessionStatus::AwaitingCredential, reason: None },
            SshEventView::CredentialRequired { session_id: id, kind },
        ],
{
    let mut r: Vec<SshEvent> = Vec::new();
    r.push(SshEvent::Status { session_id: id, status: SessionStatus::AwaitingCredential, reason: None });
    r.push(SshEvent::CredentialRequired { session_id: id, kind });
    assert(ssh_views(r@) =~= seq![
        SshEventView::Status { session_id: id, status: SessionStatus::AwaitingCredential, reason: None },
        SshEventView::CredentialRequired { session_id: id, kind },
    ]);
    r
}

/// Whether a prompt may be shown at all: only while the session is active.
pub fn may_prompt(active: bool) -> (r: Result<(), SshError>)
    ensures
        active ==> r is Ok,
        !active ==> r == Err::<(), SshError>(SshError::CredentialRequired),
{
    if active {
        Ok(())
    } else {
        Err(SshError::CredentialRequired)
    }
}

/// The secret a credential prompt yields: a non-empty answer while active; an empty or
/// missing answer means no credential; an unanswered prompt times out.
pub fn credential_reply_result(reply: PromptReply<Option<String>>, active: bool) -> (r: Result<String, SshError>)
    ensures
        match r {
            Ok(t) => prompt_secret(reply, active) == Ok::<Seq<char>, SshError>(t@),
            Err(e) => prompt_secret(reply, active) == Err::<Seq<char>, SshError>(e),
        },
        match reply {
            PromptReply::Answered(Some(s)) => if s@.len() > 0 && active {
                r matches Ok(t) && t@ == s@
            } else {
                r == Err::<String, SshError>(SshError::CredentialRequired)
            },
            PromptReply::Answered(None) => r == Err::<String, SshError>(SshError::CredentialRequired),
            _ => r == Err::<String, SshError>(SshError::CredentialTimedOut),
        },
{
    match reply {
        PromptReply::Answered(Some(secret)) => {
            if !secret.as_str().is_empty() && active {
                Ok(secret)
            } else {
                Err(SshError::CredentialRequired)
            }
        },
        PromptReply::Answered(None) => Err(SshError::CredentialRequired),
        _ => Err(SshError::CredentialTimedOut),
    }
}

/// Where a secret for authentication comes from.
pub enum CredentialPlan {
    /// Already resolved from the vault.
    Known(String),
    /// Must be asked for.
    Ask,
    /// Not needed.
    Omit,
}

/// A password login uses the stored secret or asks for one.
pub fn password_plan(secret: Option<SecretValue>) -> (r: CredentialPlan)
    ensures
        match secret {
            Some(s) => r matches CredentialPlan::Known(t) && t@ == s@,
            None => r is Ask,
        },
{
    match secret {
        Some(value) => CredentialPlan::Known(value.expose().to_owned()),
        None => CredentialPlan::Ask,
    }
}

/// A key login uses the stored passphrase, asks for one the key needs, or uses none.
pub fn passphrase_plan(passphrase: Option<SecretValue>, needs_passphrase: bool) -> (r: CredentialPlan)
    ensures
        match passphrase {
            Some(s) => r matches CredentialPlan::Known(t) && t@ == s@,
            None => if needs_passphrase {
                r is Ask
            } else {
                r is Omit
            },
        },
{
    match passphrase {
        Some(value) => CredentialPlan::Known(value.expose().to_owned()),
        None => if needs_passphrase {
            CredentialPlan::Ask
        } else {
            CredentialPlan::Omit
        },
    }
}

/// A command from the application to a running session.
pub enum SessionCommand {
    Write(Vec<u8>),
    Resize { rows: u16, columns: u16 },
    Close,
}

/// A message read from the session's channel.
pub enum ChannelMessage {
    Data(Vec<u8>),
    ExitStatus(u32),
    Finished,
    Other,
}

/// What the session loop handles next: a command (`None` once no sender is left) or a
/// channel message.
pub enum LoopInput {
    Command(Option<SessionCommand>),
    Channel(ChannelMessage),
}

/// What the session loop does with an input.
pub enum LoopAction {
    Send(Vec<u8>),
    WindowChange { columns: u32, rows: u32 },
    Emit(SshEvent),
    /// Close the channel and disconnect, then stop.
    HangUp,
    Stop,
    Nothing,
}

/// The session loop between inputs: it remembers the exit status the server reported.
pub struct SessionLoop {
    session_id: SessionId,
    exit_code: Option<u32>,
}

impl SessionLoop {
    pub closed spec fn id(&self) -> SessionId {
        self.session_id
    }

    pub closed spec fn reported_exit(&self) -> Option<u32> {
        self.exit_code
    }

    pub fn new(session_id: SessionId) -> (s: Self)
        ensures
            s.id() == session_id,
            s.reported_exit() is None,
    {
        SessionLoop { session_id, exit_code: None }
    }

    /// The exit code to return once the loop stops.
    pub fn exit_code(&self) -> (r: Option<u32>)
        ensures
            r == self.reported_exit(),
    {
        self.exit_code
    }

    /// Handles one input; the loop ends after `HangUp` or `Stop`.
    pub fn step(&mut self, input: LoopInput) -> (r: LoopAction)
        ensures
            final(self).id() == old(self).id(),
            match input {
                LoopInput::Command(Some(SessionCommand::Write(d))) => r matches LoopAction::Send(e)
                    && e@ == d@ && final(self).reported_exit() == old(self).reported_exit(),
                LoopInput::Command(Some(SessionCommand::Resize { rows, columns })) => r
                    matches LoopAction::WindowChange { columns: c, rows: w } && c == columns && w
                    == rows && final(self).reported_exit() == old(self).reported_exit(),
                LoopInput::Command(_) => r is HangUp && final(self).reported_exit() == old(
                    self,
                ).reported_exit(),
                LoopInput::Channel(ChannelMessage::Data(d)) => r matches LoopAction::Emit(e) && e@
                    == (SshEventView::Output { session_id: old(self).id(), data: d@ })
                    && final(self).reported_exit() == old(self).reported_exit(),
                LoopInput::Channel(ChannelMessage::ExitStatus(code)) => r is Nothing
                    && final(self).reported_exit() == Some(code),
                LoopInput::Channel(ChannelMessage::Finished) => r is Stop
                    && final(self).reported_exit() == old(self).reported_exit(),
                LoopInput::Channel(ChannelMessage::Other) => r is Nothing
                    && final(self).reported_exit() == old(self).reported_exit(),
            },
    {
        match input {
            LoopInput::Command(Some(SessionCommand::Write(data))) => LoopAction::Send(data),
            LoopInput::Command(Some(SessionCommand::Resize { rows, columns })) => LoopAction::WindowChange {
                columns: columns as u32,
                rows: rows as u32,
            },
            LoopInput::Command(_) => LoopAction::HangUp,
            LoopInput::Channel(ChannelMessage::Data(data)) => LoopAction::Emit(
                SshEvent::Output { session_id: self.session_id, data },
            ),
            LoopInput::Channel(ChannelMessage::ExitStatus(code)) => {
                self.exit_code = Some(code);
                LoopAction::Nothing
            },
            LoopInput::Channel(ChannelMessage::Finished) => LoopAction::Stop,
            LoopInput::Channel(ChannelMessage::Other) => LoopAction::Nothing,
        }
    }
}

/// The final report of a session: nothing once it was closed; otherwise its exit code
/// and a disconnection, or the error that ended it.
pub open spec fn finish_views(id: SessionId, was_active: bool, result: Result<Option<u32>, SshError>) -> Seq<
    SshEventView,
> {
    if !was_active {
        seq![]
    } else {
        match result {
            Ok(code) => seq![
                SshEventView::Exit { session_id: id, exit_code: code },
                SshEventView::Status { session_id: id, status: SessionStatus::Disconnected, reason: None },
            ],
            Err(e) => seq![failed_view(id, e)],
        }
    }
}

pub fn finish_events(id: SessionId, was_active: bool, result: Result<Option<u32>, SshError>) -> (r: Vec<SshEvent>)
    ensures
        ssh_views(r@) == finish_views(id, was_active, result),
{
    let mut r: Vec<SshEvent> = Vec::new();
    if was_active {
        match result {
            Ok(code) => {
                r.push(SshEvent::Exit { session_id: id, exit_code: code });
                r.push(SshEvent::Status { session_id: id, status: SessionStatus::Disconnected, reason: None });
            },
            Err(e) => {
                r.push(failed_event(id, e));
            },
        }
    }
    assert(ssh_views(r@) =~= finish_views(id, was_active, result));
    r
}

/// Local and remote terminals accept exactly the same dimensions.
pub proof fn lemma_size_rules_agree(rows: u16, columns: u16)
    ensures
        remote_size_valid(rows, columns) == crate::local_session::size_valid(rows, columns),
{
}

/// The secret a credential prompt yields, by its text.
pub open spec fn prompt_secret(reply: PromptReply<Option<String>>, active: bool) -> Result<Seq<char>, SshError> {
    match reply {
        PromptReply::Answered(Some(s)) => if s@.len() > 0 && active {
            Ok(s@)
        } else {
            Err(SshError::CredentialRequired)
        },
        PromptReply::Answered(None) => Err(SshError::CredentialRequired),
        _ => Err(SshError::CredentialTimedOut),
    }
}

/// A credential prompt never yields an empty secret, nor any secret once the session
/// has become inactive.
pub proof fn lemma_prompt_secret_never_empty(reply: PromptReply<Option<String>>, active: bool)
    ensures
        prompt_secret(reply, active) matches Ok(t) ==> t.len() > 0 && active,
{
}

} // verus!
