//! Port for discovering and controlling local terminal sessions, free of OS details.
use vstd::prelude::*;
use std::sync::Arc;
use crate::domain::{SessionDescriptor, SessionStatus, ShellProfile};
use crate::ids::{spec_uuid_parse, SessionId, ShellProfileId};

verus! {

/// What a running terminal session reports.
#[derive(Clone, Debug, PartialEq, Eq)]
pub enum TerminalEvent {
    Output { session_id: SessionId, data: Vec<u8> },
    Status { session_id: SessionId, status: SessionStatus, reason: Option<String> },
    Exit { session_id: SessionId, exit_code: Option<u32> },
}

/// Receives the events of terminal sessions.
pub trait TerminalEventSink: Send + Sync {
    fn emit(&self, event: TerminalEvent);
}

#[derive(Clone, Debug, PartialEq, Eq)]
pub enum TerminalError {
    InvalidSize,
    ProfileNotFound,
    SessionNotFound,
    Platform(String),
    Io(String),
    StateUnavailable,
}

/// The text shown for a terminal error.
pub open spec fn terminal_error_text(e: TerminalError) -> Seq<char> {
    match e {
        TerminalError::InvalidSize => "terminal dimensions are invalid"@,
        TerminalError::ProfileNotFound => "shell profile was not found"@,
        TerminalError::SessionNotFound => "terminal session was not found"@,
        TerminalError::Platform(m) => "terminal platform operation failed: "@ + m@,
        TerminalError::Io(m) => "terminal I/O failed: "@ + m@,
        TerminalError::StateUnavailable => "terminal state is unavailable"@,
    }
}

impl TerminalError {
    pub fn message(&self) -> (s: String)
        ensures
            s@ == terminal_error_text(*self),
    {
        match self {
            TerminalError::InvalidSize => String::from_str("terminal dimensions are invalid"),
            TerminalError::ProfileNotFound => String::from_str("shell profile was not found"),
            TerminalError::SessionNotFound => String::from_str("terminal session was not found"),
            TerminalError::Platform(m) => {
                let mut s = String::from_str("terminal platform operation failed: ");
                s.append(m.as_str());
                s
            },
            TerminalError::Io(m) => {
                let mut s = String::from_str("terminal I/O failed: ");
                s.append(m.as_str());
                s
            },
            TerminalError::StateUnavailable => String::from_str("terminal state is unavailable"),
        }
    }
}

/// A backend that starts and drives local terminal sessions.
pub trait TerminalBackend: Send + Sync {
    fn shell_profiles(&self) -> Vec<ShellProfile>;

    fn start(
        &self,
        shell_profile_id: ShellProfileId,
        rows: u16,
        columns: u16,
        sink: Arc<dyn TerminalEventSink>,
    ) -> Result<SessionDescriptor, TerminalError>;

    fn write(&self, session_id: SessionId, data: &[u8]) -> Result<(), TerminalError>;

    fn resize(&self, session_id: SessionId, rows: u16, columns: u16) -> Result<(), TerminalError>;

    fn close(&self, session_id: SessionId) -> Result<(), TerminalError>;
}

/// The session a public identifier names; text that names none is an unknown session.
pub fn parse_session_id(value: &str) -> (r: Result<SessionId, TerminalError>)
    ensures
        match spec_uuid_parse(value@) {
            Some(v) => r matches Ok(id) && id@ == v,
            None => r == Err::<SessionId, TerminalError>(TerminalError::SessionNotFound),
        },
{
    match SessionId::parse(value) {
        Some(id) => Ok(id),
        None => Err(TerminalError::SessionNotFound),
    }
}

/// The shell profile a public identifier names; text that names none is an unknown profile.
pub fn parse_shell_profile_id(value: &str) -> (r: Result<ShellProfileId, TerminalError>)
    ensures
        match spec_uuid_parse(value@) {
            Some(v) => r matches Ok(id) && id@ == v,
            None => r == Err::<ShellProfileId, TerminalError>(TerminalError::ProfileNotFound),
        },
{
    match ShellProfileId::parse(value) {
        Some(id) => Ok(id),
        None => Err(TerminalError::ProfileNotFound),
    }
}

} // verus!
