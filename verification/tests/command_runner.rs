use bender::command_runner::{
    admit_command, display_argv, passed_variables, process_group, wait_step, CommandRunner, Ended, EnvironmentPolicy,
    OutputBuffer, WaitAction, WaitEvent, WaitState, MAX_OUTPUT_BYTES,
};
use bender::workspace::PathFact;

fn argv(parts: &[&str]) -> Vec<String> {
    parts.iter().map(|part| part.to_string()).collect()
}

fn ended(exit_code: Option<i32>, timed_out: bool, stdout: &str) -> Ended {
    let mut out = OutputBuffer::new();
    out.take_chunk(stdout.as_bytes());
    Ended {
        pid: 9,
        started_at: 1,
        finished_at: 5,
        elapsed_ms: 4,
        exit_code,
        timed_out,
        stdout: out,
        stderr: OutputBuffer::new(),
    }
}

#[test]
fn results_record_success_failure_and_timeout() {
    let mut runner = CommandRunner::new();
    let ticket = runner.begin("ok", 9);
    let success = runner.finish("ok".into(), ticket, argv(&["printf", "ok"]), "/w".into(), ended(Some(0), false, "ok"));
    assert!(success.success());
    assert_eq!(success.stdout, "ok");
    let ticket = runner.begin("timeout", 9);
    let timeout = runner.finish("timeout".into(), ticket, argv(&["sleep", "2"]), "/w".into(), ended(None, true, ""));
    assert!(timeout.timed_out);
    assert!(!timeout.success());
}

#[test]
fn cancelled_commands_do_not_succeed() {
    let mut runner = CommandRunner::default();
    let ticket = runner.begin("cancel-me", 9);
    assert!(runner.still_active("cancel-me", 9));
    assert_eq!(runner.cancel("cancel-me"), Some(9));
    assert_eq!(runner.cancel("unknown"), None);
    let result = runner.finish("cancel-me".into(), ticket, argv(&["sleep", "30"]), "/w".into(), ended(Some(0), false, ""));
    assert!(result.cancelled);
    assert!(!result.success());
    assert!(!runner.still_active("cancel-me", 9));
}

#[test]
fn timeouts_terminate_and_then_kill() {
    let (state, action) = wait_step(WaitState::Running, WaitEvent::Elapsed);
    assert!(matches!(action, WaitAction::Terminate));
    let (state, action) = wait_step(state, WaitEvent::Elapsed);
    assert!(matches!(action, WaitAction::Kill));
    assert!(matches!(state, WaitState::Ended { timed_out: true, .. }));
    let (state, _) = wait_step(WaitState::Running, WaitEvent::Exited(Some(3)));
    assert!(matches!(state, WaitState::Ended { exit_code: Some(3), timed_out: false }));
}

#[test]
fn output_is_bounded() {
    let mut buffer = OutputBuffer::new();
    buffer.take_chunk(&vec![b'x'; MAX_OUTPUT_BYTES]);
    assert!(!buffer.truncated);
    buffer.take_chunk(b"more");
    assert!(buffer.truncated);
    assert_eq!(buffer.bytes.len(), MAX_OUTPUT_BYTES);
}

#[test]
fn evidence_shows_the_command_and_its_streams() {
    let mut runner = CommandRunner::new();
    let ticket = runner.begin("e", 9);
    let result = runner.finish("e".into(), ticket, argv(&["echo", "a b"]), "/w".into(), ended(Some(1), false, "out"));
    assert_eq!(
        result.evidence(),
        "command: echo \"a b\"\nexit: Some(1)\ntimeout: false\ncancelled: false\nstdout:\nout\nstderr:\n"
    );
    assert_eq!(display_argv(&argv(&["a", "b c", "-x=1"])), "a \"b c\" -x=1");
}

#[test]
fn checks_see_few_variables() {
    let check = passed_variables(EnvironmentPolicy::Check);
    assert!(check.contains(&"PATH".to_string()));
    assert!(!check.contains(&"SSH_AUTH_SOCK".to_string()));
    assert!(!check.contains(&"OPENAI_API_KEY".to_string()));
    assert!(passed_variables(EnvironmentPolicy::Worker).contains(&"PATH".to_string()));
}

#[test]
fn commands_are_admitted_in_their_workspace() {
    let facts = vec![
        PathFact { path: "/w".into(), exists: true, canonical: Some("/w".into()), link: None },
        PathFact { path: "/w/run".into(), exists: true, canonical: Some("/w/run".into()), link: None },
        PathFact { path: "/w/link".into(), exists: true, canonical: Some("/etc".into()), link: None },
        PathFact { path: "/etc/passwd".into(), exists: true, canonical: Some("/etc/passwd".into()), link: None },
    ];
    assert!(admit_command(&argv(&["/w/run"]), "/w", Some("/w".into()), true, &facts).is_ok());
    assert_eq!(
        admit_command(&argv(&["cat", "/etc/passwd"]), "/w", Some("/w".into()), true, &facts).unwrap_err().message(),
        "absolute command argument is outside workspace: /etc/passwd"
    );
    assert_eq!(
        admit_command(&argv(&["cat", "/etc/passwd"]), "/w", Some("/w".into()), true, &facts).unwrap_err().chain(),
        "absolute command argument is outside workspace: /etc/passwd: path is outside workspace"
    );
    assert_eq!(
        admit_command(&argv(&["cat", "/w/link"]), "/w", Some("/w".into()), true, &facts).unwrap_err().chain(),
        "absolute command argument is outside workspace: /w/link: resolved path /etc is outside workspace /w"
    );
    assert_eq!(
        admit_command(&argv(&["sudo", "ls"]), "/w", Some("/w".into()), true, &facts).unwrap_err().chain(),
        "privilege escalation is not allowed"
    );
    assert_eq!(
        admit_command(&argv(&["ls"]), "gone", None, false, &facts).unwrap_err().message(),
        "could not canonicalize gone"
    );
    assert_eq!(
        admit_command(&argv(&["sudo", "ls"]), "/w", Some("/w".into()), true, &facts).unwrap_err().message(),
        "privilege escalation is not allowed"
    );
    assert!(process_group(12).contains("12"));
}
