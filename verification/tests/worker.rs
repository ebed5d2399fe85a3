use bender::codex::CodexCapabilities;
use bender::command_runner::CommandResult;
use bender::json::parse;
use bender::worker::{
    artifact_path, chat_content, chat_url, extract_thread_id, Answer, CodexCliWorker, FinalMessage, OllamaWorker, WorkerRequest,
};

fn full() -> CodexCapabilities {
    CodexCapabilities {
        version: "fixture".into(),
        supports_exec: true,
        supports_json: true,
        supports_output_schema: true,
        supports_output_last_message: true,
        supports_resume: true,
        supports_workspace_write: true,
        supports_read_only: true,
        supports_approval_never: true,
        supports_working_directory: true,
    }
}

fn request() -> WorkerRequest {
    WorkerRequest {
        invocation_id: "fixture-invocation".into(),
        job_id: "job-fixture".into(),
        workspace: "/tmp/project".into(),
        artifacts: "/tmp/project/artifacts".into(),
        prompt: "fixture prompt".into(),
        attempt: 1,
        session_id: None,
        timeout_seconds: 5,
    }
}

fn process(exit_code: Option<i32>, stdout: &str, stderr: &str) -> CommandResult {
    CommandResult {
        invocation_id: "fixture-invocation".into(),
        argv: vec!["codex".into()],
        working_directory: "/tmp/project".into(),
        pid: 1,
        started_at: 1,
        finished_at: 2,
        elapsed_ms: 1,
        exit_code,
        timed_out: false,
        cancelled: false,
        stdout: stdout.into(),
        stderr: stderr.into(),
        output_truncated: false,
    }
}

fn message() -> FinalMessage {
    FinalMessage {
        summary: "fixture success".into(),
        changed_files: vec!["result.txt".into()],
        tests: vec!["unit".into()],
        patch: String::new(),
    }
}

#[test]
fn current_codex_invocation_is_argv_based_and_confined() {
    let worker = CodexCliWorker::default();
    let argv = worker.argv("/tmp/project", None, "/tmp/schema", "/tmp/result", &full()).unwrap();
    assert_eq!(argv[0], "codex");
    assert!(argv.windows(2).any(|pair| pair == ["--cd", "/tmp/project"]));
    assert!(argv.windows(2).any(|pair| pair == ["--sandbox", "workspace-write"]));
    assert!(argv.windows(2).any(|pair| pair == ["--ask-for-approval", "never"]));
    assert!(argv.contains(&"--json".to_string()));
    assert!(!argv.iter().any(|arg| arg.contains("sh -c")));
}

#[test]
fn extracts_machine_readable_session_id() {
    let id = extract_thread_id(
        "{\"type\":\"thread.started\",\"thread_id\":\"019c-test\"}\n{\"type\":\"turn.started\"}",
    );
    assert_eq!(id.as_deref(), Some("019c-test"));
    assert_eq!(extract_thread_id("not json\n{\"type\":\"turn.started\"}"), None);
}

#[test]
fn sessions_are_resumed_by_their_id() {
    let argv = CodexCliWorker::new("codex").argv("/tmp/project", Some("fixture-session"), "/s", "/r", &full()).unwrap();
    assert!(argv.iter().any(|argument| argument == "resume"));
    assert!(argv.iter().any(|argument| argument == "fixture-session"));
    let mut without = full();
    without.supports_resume = false;
    let error = CodexCliWorker::new("codex").argv("/p", Some("x"), "/s", "/r", &without).unwrap_err().message();
    assert!(error.contains("session resumption"));
    assert!(CodexCliWorker::new("codex").argv("/p", None, "/s", "/r", &without).is_ok());
}

#[test]
fn plans_are_made_without_writing() {
    let argv = CodexCliWorker::new("codex").planner_argv("/tmp/project", "/s", "/r", &full()).unwrap();
    assert!(argv.iter().any(|argument| argument == "read-only"));
    assert!(argv.iter().any(|argument| argument == "--ephemeral"));
    assert!(!argv.iter().any(|argument| argument == "workspace-write"));
    let worker = CodexCliWorker::new("codex");
    assert_eq!(
        worker.planner_output(&process(Some(0), "", ""), Some("{\"summary\":\"planned\"}".into())).unwrap(),
        "{\"summary\":\"planned\"}"
    );
    assert_eq!(
        worker.planner_output(&process(Some(0), "", ""), None).unwrap_err().message(),
        "Codex requirements planner did not produce structured output"
    );
    assert!(worker.planner_output(&process(Some(1), "", "boom"), None).unwrap_err().message().contains("boom"));
}

#[test]
fn results_carry_the_session_and_the_answer() {
    let worker = CodexCliWorker::new("codex");
    let stdout = "{\"type\":\"thread.started\",\"thread_id\":\"fixture-session\"}\n{\"type\":\"turn.started\"}\n";
    let result = worker.result(request(), process(Some(0), stdout, "fixture stderr"), Answer::Parsed(message())).unwrap();
    assert_eq!(result.session_id.as_deref(), Some("fixture-session"));
    assert_eq!(result.summary, "fixture success");
    assert_eq!(result.changed_files, vec!["result.txt"]);
    assert_eq!(result.tests, vec!["unit"]);
    assert_eq!(result.worker, "codex_cli");
    assert!(result.process.stdout.contains("turn.started"));
}

#[test]
fn malformed_partial_and_failed_runs_are_refused() {
    let worker = CodexCliWorker::new("codex");
    let malformed = worker.result(request(), process(Some(0), "", ""), Answer::Malformed).unwrap_err().message();
    assert!(malformed.contains("malformed structured output"));
    let missing = worker.result(request(), process(Some(0), "", ""), Answer::Missing).unwrap_err().message();
    assert_eq!(missing, "Codex exited successfully but did not produce structured output");
    let failed =
        worker.result(request(), process(Some(42), "", "output schema rejected"), Answer::Missing).unwrap_err().message();
    assert!(failed.contains("exit Some(42)"));
    assert!(failed.contains("output schema rejected"));
    let mut late = process(None, "", "");
    late.timed_out = true;
    assert!(worker.result(request(), late, Answer::Missing).unwrap_err().message().contains("timeout true"));
    let mut stopped = process(None, "", "");
    stopped.cancelled = true;
    assert!(worker.result(request(), stopped, Answer::Missing).unwrap_err().message().contains("cancelled true"));
}

#[test]
fn artifacts_are_named_by_their_invocation() {
    assert_eq!(
        artifact_path("/tmp/project/artifacts", "fixture-invocation", "-stdout.jsonl"),
        "/tmp/project/artifacts/fixture-invocation-stdout.jsonl"
    );
}

#[test]
fn local_models_answer_by_message_content() {
    let reply = parse("{\"message\":{\"content\":\"hello\"}}").unwrap();
    assert_eq!(chat_content(&reply).as_deref(), Some("hello"));
    assert_eq!(chat_content(&parse("{\"message\":{}}").unwrap()), None);
    assert_eq!(chat_url("http://127.0.0.1:11434/"), "http://127.0.0.1:11434/api/chat");
    let worker = OllamaWorker::new("http://127.0.0.1:11434", "qwen");
    assert!(worker.prompt(&request()).contains("fixture prompt"));
    assert!(!OllamaWorker::has_patch(&message()));
    let mut patched = message();
    patched.patch = "diff --git a/x b/x".into();
    assert!(OllamaWorker::has_patch(&patched));
    let done = worker.result(request(), patched, "content", 5, 9);
    assert_eq!(done.summary, "fixture success");
    assert!(done.process.success());
}
