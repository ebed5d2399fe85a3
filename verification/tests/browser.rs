use bender::browser::{
    classify_artifact, parse_json_report, ArtifactKind, BrowserIssueKind, PlaywrightEvidence,
};
use bender::command_runner::CommandResult;
use bender::wildcards::wildcard_match;

fn process(exit_code: i32, stdout: &str) -> CommandResult {
    CommandResult {
        invocation_id: "ui".into(),
        argv: vec!["playwright".into(), "test".into()],
        working_directory: "/tmp/root".into(),
        pid: 1,
        started_at: 1,
        finished_at: 2,
        elapsed_ms: 1,
        exit_code: Some(exit_code),
        timed_out: false,
        cancelled: false,
        stdout: stdout.into(),
        stderr: String::new(),
        output_truncated: false,
    }
}

#[test]
fn parses_playwright_and_records_ignored_console_evidence() {
    let events = "{\"kind\":\"console_error\",\"message\":\"GET favicon.ico 404\"}\n\
             {\"kind\":\"page_exception\",\"message\":\"boom\",\"location\":\"app.js:3\"}\n";
    let process = process(
        1,
        r#"{"suites":[{"title":"account","specs":[{"title":"deletes","file":"account.spec.ts","line":9,"tests":[{"status":"unexpected"}]}]}]}"#,
    );
    let evidence = PlaywrightEvidence::collect(
        &process,
        "/tmp/root/browser-events.jsonl",
        Some(events),
        &vec!["browser-events.jsonl".into(), "failure.png".into(), "trace.zip".into()],
        &vec!["*favicon.ico*".into()],
    )
    .unwrap();
    assert_eq!(evidence.tests[0].file, "account.spec.ts");
    assert_eq!(evidence.screenshots, ["failure.png"]);
    assert_eq!(evidence.traces, ["trace.zip"]);
    assert!(evidence.issues.iter().any(|issue| {
        issue.kind == BrowserIssueKind::ConsoleError
            && issue.ignored
            && issue.ignored_by.as_deref() == Some("*favicon.ico*")
    }));
    assert_eq!(evidence.unignored(BrowserIssueKind::PageException).len(), 1);
    assert_eq!(evidence.unignored(BrowserIssueKind::ConsoleError).len(), 0);
    assert_eq!(evidence.count_ignored(BrowserIssueKind::ConsoleError), 1);
}

#[test]
fn malformed_events_are_refused() {
    let error = PlaywrightEvidence::collect(&process(0, ""), "/e.jsonl", Some("{broken"), &vec![], &vec![]).unwrap_err();
    assert_eq!(error.message(), "malformed browser event in /e.jsonl");
}

#[test]
fn failed_runs_without_a_report_leave_an_assertion_failure() {
    let evidence = PlaywrightEvidence::collect(&process(1, "boom"), "/e", None, &vec![], &vec![]).unwrap();
    assert!(!evidence.command_passed);
    assert!(!evidence.unignored(BrowserIssueKind::AssertionFailure).is_empty());
    let fine = PlaywrightEvidence::collect(&process(0, ""), "/e", None, &vec![], &vec![]).unwrap();
    assert!(fine.command_passed);
    assert!(fine.issues.is_empty());
}

#[test]
fn only_console_errors_can_be_ignored() {
    let events = "{\"kind\":\"page_exception\",\"message\":\"favicon.ico\"}";
    let evidence =
        PlaywrightEvidence::collect(&process(0, ""), "/e", Some(events), &vec![], &vec!["*favicon.ico*".into()]).unwrap();
    assert_eq!(evidence.unignored(BrowserIssueKind::PageException).len(), 1);
    let asserted = "{\"kind\":\"assertion_failure\",\"message\":\"anything\"}";
    let failed =
        PlaywrightEvidence::collect(&process(1, ""), "/e", Some(asserted), &vec![], &vec!["*".into()]).unwrap();
    assert_eq!(failed.unignored(BrowserIssueKind::AssertionFailure).len(), 1);
}

#[test]
fn reports_are_found_in_what_is_printed() {
    assert!(parse_json_report("{\"suites\":[]}").is_some());
    assert!(parse_json_report("nothing").is_none());
}

#[test]
fn artifacts_are_sorted_by_their_extension() {
    assert!(matches!(classify_artifact("a/failure.png"), ArtifactKind::Screenshot));
    assert!(matches!(classify_artifact("a/trace.zip"), ArtifactKind::Trace));
    assert!(matches!(classify_artifact("a/video.webm"), ArtifactKind::Video));
    assert!(matches!(classify_artifact("a/notes.txt"), ArtifactKind::Other));
}

#[test]
fn stars_and_question_marks_stand_for_bytes() {
    assert!(wildcard_match("*favicon.ico*", "GET favicon.ico 404"));
    assert!(wildcard_match("a?c", "abc"));
    assert!(!wildcard_match("a?c", "ac"));
    assert!(wildcard_match("", ""));
    assert!(!wildcard_match("", "x"));
    assert!(wildcard_match("***", "anything"));
    assert!(wildcard_match("a*b*c", "aXXbYYc"));
    assert!(!wildcard_match("a*b*c", "aXXcYYb"));
    assert!(!wildcard_match("*", "*a"));
}
