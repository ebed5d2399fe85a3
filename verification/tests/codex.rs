use bender::codex::{authentication_status, checked_output, CodexCapabilities};

#[test]
fn missing_capability_is_reported_exactly() {
    let capabilities = CodexCapabilities {
        version: "codex-cli fixture".into(),
        supports_exec: true,
        supports_json: true,
        supports_output_schema: false,
        supports_output_last_message: true,
        supports_resume: false,
        supports_workspace_write: true,
        supports_read_only: true,
        supports_approval_never: true,
        supports_working_directory: true,
    };
    let error = capabilities.ensure_compatible(true).unwrap_err().message();
    assert!(error.contains("`--output-schema`"));
    assert!(error.contains("session resumption"));
}

#[test]
fn capabilities_are_read_from_the_help() {
    let found = CodexCapabilities::detect(
        "codex-cli fixture",
        "exec --ask-for-approval never --sandbox read-only workspace-write --cd",
        "Run Codex non-interactively: resume --json --output-schema --output-last-message",
        Some("SESSION_ID --json"),
    );
    assert!(found.missing_required(true).is_empty());
    assert!(found.ensure_compatible(true).is_ok());
    assert!(found.ensure_planning_compatible().is_ok());
    let bare = CodexCapabilities::detect("codex-cli 0", "", "", None);
    assert!(!bare.missing_required(false).is_empty());
    assert!(bare.ensure_planning_compatible().unwrap_err().message().contains("codex-cli 0"));
}

#[test]
fn output_of_failed_commands_is_the_error() {
    assert_eq!(checked_output(&b"codex-cli 1\n".to_vec(), &vec![], true).unwrap(), "codex-cli 1\n");
    assert!(checked_output(&vec![], &b"boom".to_vec(), false).is_err());
    assert!(authentication_status(&b"Logged in".to_vec(), &vec![], true).unwrap().contains("Logged in"));
    assert!(authentication_status(&vec![], &b"not logged in".to_vec(), false).is_err());
}

#[test]
fn bytes_that_are_no_text_are_replaced() {
    let shown = checked_output(&vec![0x6f, 0xff, 0x6b], &vec![], true).unwrap();
    assert_eq!(shown, "o\u{fffd}k");
}
