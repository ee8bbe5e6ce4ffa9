use ownterm::diagnostics::{DiagnosticEvent, PublicError};

#[test]
fn diagnostic_snapshot_contains_only_allowlisted_fields() {
    let secret = "never-log-this-password";
    let event = DiagnosticEvent::failure(
        "credential.cleanup",
        Some("host-018".into()),
        "vault_unavailable",
    );
    let public = PublicError {
        code: "vault_unavailable",
        message: "The system credential vault is unavailable.",
        recoverable: true,
    };
    let snapshot = format!("{}\n{public:?}", event.text());

    assert_eq!(
        snapshot,
        "operation=credential.cleanup entity_id=host-018 error_code=vault_unavailable\nPublicError { code: \"vault_unavailable\", message: \"The system credential vault is unavailable.\", recoverable: true }"
    );
    assert!(!snapshot.contains(secret));
    assert!(!snapshot.contains("credential_ref"));
}

#[test]
fn successful_events_carry_no_error_code() {
    assert_eq!(DiagnosticEvent::success("host.save", None).text(), "operation=host.save");
    assert_eq!(
        DiagnosticEvent::success("host.save", Some("h1".into())).text(),
        "operation=host.save entity_id=h1"
    );
}
