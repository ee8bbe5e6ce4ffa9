use ownterm::domain::{SessionStatus, Timestamp};
use ownterm::ids::{HostId, SessionId};
use ownterm::repositories::{KnownHostRepository, RepositoryError};
use ownterm::ssh::{resolve_quick_connect, saved_host_lookup, ResolvedSshAuth, SshResolveError};
use ownterm::ssh_session::{
    credential_prompt_events, credential_reply_result, finish_events, host_key_decision,
    passphrase_plan, quick_connect_descriptor, saved_session_descriptor, trust_reply_decision,
    validate_size, ChannelMessage, CredentialKind, CredentialPlan, HostKeyCheck, LoopAction,
    LoopInput, PromptReply, SessionCommand, SessionLoop, SshError, SshEvent, TrustAssessment,
};
use ownterm::ssh_trust::{decide_trust, first_use_result, verify, TrustDecision, TrustError, TrustService};
use ownterm::domain::KnownHost;
use ownterm::vault::SecretValue;

#[test]
fn parses_quick_connect_destinations() {
    let target = resolve_quick_connect("root@example.com:2222").unwrap();
    assert_eq!(target.username, "root");
    assert_eq!(target.address, "example.com");
    assert_eq!(target.port, 2222);
    assert!(matches!(target.auth, ResolvedSshAuth::Password { secret: None }));

    let ipv6 = resolve_quick_connect("root@[::1]:22").unwrap();
    assert_eq!(ipv6.address, "::1");
    assert!(resolve_quick_connect("example.com") == Err(SshResolveError::InvalidDestination));
}

#[test]
fn quick_connect_edge_cases() {
    let plain = resolve_quick_connect("  ops@host  ").unwrap();
    assert_eq!(plain.port, 22);
    assert_eq!(plain.title, "ops@host");
    assert!(plain.host_id.is_none());
    assert!(resolve_quick_connect("ops@host:0") == Err(SshResolveError::InvalidDestination));
    assert!(resolve_quick_connect("ops@host:70000") == Err(SshResolveError::InvalidDestination));
    assert!(resolve_quick_connect("@host") == Err(SshResolveError::InvalidDestination));
    assert!(resolve_quick_connect("ops@") == Err(SshResolveError::InvalidDestination));
    assert!(resolve_quick_connect("ops@a b") == Err(SshResolveError::InvalidDestination));
    assert_eq!(SshResolveError::UsernameRequired.message(), "SSH username is required");
}

#[test]
fn strict_tofu_requires_confirmation_and_blocks_a_changed_identity() {
    assert_eq!(verify(None, "SHA256:first"), TrustDecision::ConfirmFirstUse);
    assert_eq!(verify(Some("SHA256:first"), "SHA256:first"), TrustDecision::Trusted);
    assert_eq!(verify(Some("SHA256:first"), "SHA256:changed"), TrustDecision::Changed);
}

#[test]
fn recorded_keys_are_trusted_again() {
    let known = KnownHost::new("Example.COM", 22, "ssh-ed25519", "SHA256:k", Timestamp::from_unix_millis(1)).unwrap();
    assert_eq!(decide_trust(Some(&known), "ssh-ed25519", "SHA256:k"), TrustDecision::Trusted);
    assert_eq!(decide_trust(Some(&known), "ssh-rsa", "SHA256:k"), TrustDecision::Changed);
    assert_eq!(decide_trust(None, "ssh-rsa", "SHA256:k"), TrustDecision::ConfirmFirstUse);
}

#[test]
fn validates_remote_terminal_dimensions() {
    assert_eq!(validate_size(0, 80), Err(SshError::InvalidSize));
    assert_eq!(validate_size(24, 80), Ok(()));
    assert_eq!(validate_size(1001, 80), Err(SshError::InvalidSize));
}

#[test]
fn errors_are_sanitized() {
    assert_eq!(SshError::AuthenticationFailed.message(), "SSH authentication failed");
    assert!(!SshError::KeyUnavailable.message().contains("key content"));
}

#[test]
fn host_key_decisions() {
    let id = SessionId::from_u128(7);
    let trusted = host_key_decision(id, Ok(TrustAssessment::Trusted), "h", 22, "a", "f");
    assert_eq!(trusted.check, HostKeyCheck::Accept);
    assert!(trusted.events.is_empty());
    let changed = host_key_decision(id, Ok(TrustAssessment::Changed), "h", 22, "a", "f");
    assert_eq!(changed.check, HostKeyCheck::Refuse);
    assert!(changed.deactivate);
    assert_eq!(
        changed.events,
        vec![SshEvent::Status {
            session_id: id,
            status: SessionStatus::Failed,
            reason: Some("SSH host identity changed; review Known Hosts before reconnecting".into()),
        }]
    );
    let prompt = host_key_decision(id, Ok(TrustAssessment::ConfirmFirstUse), "h", 22, "a", "f");
    assert_eq!(prompt.check, HostKeyCheck::Prompt);
    assert_eq!(prompt.events.len(), 2);
    let failed = host_key_decision(id, Err(SshError::StateUnavailable), "h", 22, "a", "f");
    assert_eq!(failed.check, HostKeyCheck::Refuse);
    assert!(!failed.deactivate);

    assert!(trust_reply_decision(id, PromptReply::Answered(true), true).persist);
    assert!(!trust_reply_decision(id, PromptReply::Answered(true), false).persist);
    let rejected = trust_reply_decision(id, PromptReply::Answered(false), true);
    assert!(rejected.deactivate && rejected.events.len() == 1);
    let late = trust_reply_decision(id, PromptReply::TimedOut, false);
    assert!(late.deactivate && late.events.is_empty());
    let gone = trust_reply_decision(id, PromptReply::Abandoned, true);
    assert!(!gone.persist && !gone.deactivate);
}

#[test]
fn credential_prompts() {
    let id = SessionId::from_u128(9);
    assert_eq!(
        credential_prompt_events(id, CredentialKind::Passphrase),
        vec![
            SshEvent::Status { session_id: id, status: SessionStatus::AwaitingCredential, reason: None },
            SshEvent::CredentialRequired { session_id: id, kind: CredentialKind::Passphrase },
        ]
    );
    assert_eq!(credential_reply_result(PromptReply::Answered(Some("pw".into())), true), Ok("pw".to_owned()));
    assert_eq!(credential_reply_result(PromptReply::Answered(Some(String::new())), true), Err(SshError::CredentialRequired));
    assert_eq!(credential_reply_result(PromptReply::Answered(Some("pw".into())), false), Err(SshError::CredentialRequired));
    assert_eq!(credential_reply_result(PromptReply::Answered(None), true), Err(SshError::CredentialRequired));
    assert_eq!(credential_reply_result(PromptReply::TimedOut, true), Err(SshError::CredentialTimedOut));
    assert!(matches!(passphrase_plan(Some(SecretValue::new("x")), false), CredentialPlan::Known(s) if s == "x"));
    assert!(matches!(passphrase_plan(None, true), CredentialPlan::Ask));
    assert!(matches!(passphrase_plan(None, false), CredentialPlan::Omit));
}

#[test]
fn session_loop_and_final_report() {
    let id = SessionId::from_u128(3);
    let mut session = SessionLoop::new(id);
    assert!(matches!(session.step(LoopInput::Command(Some(SessionCommand::Write(vec![1, 2])))), LoopAction::Send(d) if d == vec![1, 2]));
    assert!(matches!(session.step(LoopInput::Command(Some(SessionCommand::Resize { rows: 24, columns: 80 }))), LoopAction::WindowChange { columns: 80, rows: 24 }));
    assert!(matches!(session.step(LoopInput::Channel(ChannelMessage::ExitStatus(5))), LoopAction::Nothing));
    assert!(matches!(session.step(LoopInput::Channel(ChannelMessage::Data(vec![9]))), LoopAction::Emit(SshEvent::Output { data, .. }) if data == vec![9]));
    assert!(matches!(session.step(LoopInput::Command(None)), LoopAction::HangUp));
    assert!(matches!(session.step(LoopInput::Channel(ChannelMessage::Finished)), LoopAction::Stop));
    assert_eq!(session.exit_code(), Some(5));

    assert_eq!(
        finish_events(id, true, Ok(Some(0))),
        vec![
            SshEvent::Exit { session_id: id, exit_code: Some(0) },
            SshEvent::Status { session_id: id, status: SessionStatus::Disconnected, reason: None },
        ]
    );
    assert_eq!(
        finish_events(id, true, Err(SshError::ChannelFailed)),
        vec![SshEvent::Status { session_id: id, status: SessionStatus::Failed, reason: Some("SSH terminal channel failed".into()) }]
    );
    assert!(finish_events(id, false, Ok(None)).is_empty());
}

#[test]
fn session_descriptors_need_a_valid_size_and_target() {
    let mut target = resolve_quick_connect("ops@host").unwrap();
    assert_eq!(quick_connect_descriptor(&target, 0, 80).unwrap_err(), SshError::InvalidSize);
    let quick = quick_connect_descriptor(&target, 24, 80).unwrap();
    assert_eq!(quick.status, SessionStatus::Starting);
    assert_eq!(saved_session_descriptor(&target, 24, 80).unwrap_err(), SshError::ConnectionFailed);
    target.host_id = Some(HostId::from_u128(1));
    let saved = saved_session_descriptor(&target, 24, 80).unwrap();
    assert_eq!(saved.title, "ops@host");
}

#[test]
fn resolved_credentials_debug_text_hides_secrets() {
    let auth = ResolvedSshAuth::PrivateKey {
        path: "C:\\keys\\id \"work\"".to_string(),
        passphrase: Some(SecretValue::new("hunter2")),
        needs_passphrase: true,
    };
    assert_eq!(
        auth.redacted_debug(),
        "PrivateKey { path: \"C:\\\\keys\\\\id \\\"work\\\"\", passphrase: Some(\"<redacted>\"), needs_passphrase: true }"
    );
    let password = ResolvedSshAuth::Password { secret: Some(SecretValue::new("hunter2")) };
    assert_eq!(password.redacted_debug(), "Password { secret: Some(\"<redacted>\") }");
    assert!(!password.redacted_debug().contains("hunter2"));
    let missing = ResolvedSshAuth::Password { secret: None };
    assert_eq!(missing.redacted_debug(), "Password { secret: None }");
}

#[test]
fn first_use_results_follow_the_decision() {
    let known = KnownHost::new("SSH.EXAMPLE.COM.", 22, "ssh-ed25519", "SHA256:first", Timestamp::from_unix_millis(50)).unwrap();
    assert_eq!(known.destination, "ssh.example.com");
    assert_eq!(
        first_use_result(TrustDecision::Changed, None, None, None),
        Err(TrustError::ChangedIdentity)
    );
    assert_eq!(
        first_use_result(TrustDecision::Trusted, Some(Ok(Some(known.clone()))), None, None),
        Ok(known.clone())
    );
    assert_eq!(
        first_use_result(TrustDecision::Trusted, Some(Ok(None)), None, None),
        Err(TrustError::Repository(RepositoryError::NotFound))
    );
    assert_eq!(
        first_use_result(TrustDecision::ConfirmFirstUse, None, Some(Ok(known.clone())), Some(Ok(()))),
        Ok(known.clone())
    );
    assert_eq!(
        first_use_result(TrustDecision::ConfirmFirstUse, None, Some(Ok(known)), Some(Err(RepositoryError::Conflict))),
        Err(TrustError::Repository(RepositoryError::Conflict))
    );
}

#[test]
fn saved_host_lookups() {
    assert_eq!(saved_host_lookup(Ok(None)).err(), Some(SshResolveError::HostNotFound));
    assert_eq!(
        saved_host_lookup(Err(RepositoryError::InvalidData)).err(),
        Some(SshResolveError::Repository(RepositoryError::InvalidData))
    );
}

#[derive(Default)]
struct KnownHosts(std::cell::RefCell<Vec<KnownHost>>);

impl KnownHostRepository for KnownHosts {
    fn find_known_host(&self, destination: &str, port: u16) -> Result<Option<KnownHost>, RepositoryError> {
        Ok(self.0.borrow().iter().find(|k| k.destination == destination && k.port == port).cloned())
    }
    fn insert_known_host(&self, known_host: &KnownHost) -> Result<(), RepositoryError> {
        self.0.borrow_mut().push(known_host.clone());
        Ok(())
    }
    fn remove_known_host(&self, destination: &str, port: u16) -> Result<(), RepositoryError> {
        self.0.borrow_mut().retain(|k| !(k.destination == destination && k.port == port));
        Ok(())
    }
    fn list_known_hosts(&self) -> Result<Vec<KnownHost>, RepositoryError> {
        Ok(self.0.borrow().clone())
    }
}

#[test]
fn strict_tofu_sequence_over_a_store() {
    let store = KnownHosts::default();
    let trust = TrustService::new(&store);
    assert_eq!(trust.assess("SSH.EXAMPLE.COM.", 22, "ssh-ed25519", "SHA256:first"), Ok(TrustDecision::ConfirmFirstUse));
    let k = trust
        .confirm_first_use("SSH.EXAMPLE.COM.", 22, "ssh-ed25519", "SHA256:first", Timestamp::from_unix_millis(50))
        .unwrap();
    assert_eq!(k.destination, "ssh.example.com");
    assert_eq!(trust.assess("ssh.example.com", 22, "ssh-ed25519", "SHA256:first"), Ok(TrustDecision::Trusted));
    assert_eq!(trust.assess("ssh.example.com", 22, "ssh-ed25519", "SHA256:changed"), Ok(TrustDecision::Changed));
    assert_eq!(
        trust.confirm_first_use("ssh.example.com", 22, "ssh-ed25519", "SHA256:changed", Timestamp::from_unix_millis(60)),
        Err(TrustError::ChangedIdentity)
    );
    assert_eq!(store.list_known_hosts().unwrap(), vec![k]);
    trust.remove("ssh.example.com", 22).unwrap();
    assert_eq!(trust.assess("ssh.example.com", 22, "ssh-ed25519", "SHA256:changed"), Ok(TrustDecision::ConfirmFirstUse));
}

#[test]
fn forgetting_a_key_uses_the_normalized_destination() {
    let store = KnownHosts::default();
    let trust = TrustService::new(&store);
    trust
        .confirm_first_use("edge.example", 2222, "ssh-ed25519", "SHA256:k", Timestamp::from_unix_millis(1))
        .unwrap();
    trust.remove("  EDGE.Example.. ", 2222).unwrap();
    assert!(store.list_known_hosts().unwrap().is_empty());
    assert!(matches!(trust.remove("   ", 22), Err(TrustError::Domain(_))));
}
