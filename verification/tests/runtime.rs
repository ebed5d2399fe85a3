use bender::cli::{check_line, job_line, local_web_url, model_line, worker_line};
use bender::doctor::DoctorCheck;
use bender::jobs::JobStore;
use bender::json::{parse, Json};
use bender::project_config::WorkerSettings;
use bender::review::{parse_review_status, read_review, review_prompt, GemmaReviewer, RawFinding, RawReview, ReviewStatus};
use bender::runtime::{limit_log, readiness, start_failure, validate_start, Readiness, LOG_LIMIT};

#[test]
fn applications_are_ready_when_they_answer() {
    assert!(matches!(readiness(None, Some(true), 0, 5), Readiness::Ready));
    assert!(matches!(readiness(None, Some(false), 100, 5), Readiness::Waiting));
    assert!(matches!(readiness(None, None, 149, 5), Readiness::Waiting));
    assert!(matches!(readiness(None, None, 150, 5), Readiness::Ready));
    match readiness(Some("exit status: 1"), Some(true), 0, 5) {
        Readiness::Failed(message) => assert_eq!(message, "runtime exited before readiness with exit status: 1"),
        _ => panic!("a failure was expected"),
    }
    match readiness(None, Some(false), 5000, 5) {
        Readiness::Failed(message) => assert_eq!(message, "runtime readiness timed out after 5s"),
        _ => panic!("a failure was expected"),
    }
    match readiness(None, Some(false), 0, 0) {
        Readiness::Failed(message) => assert_eq!(message, "runtime readiness timed out after 0ns"),
        _ => panic!("a failure was expected"),
    }
}

#[test]
fn applications_start_in_the_workspace() {
    assert!(validate_start(&["node".into()], "/w", Some("/w".into()), true, &vec![]).is_ok());
    assert!(validate_start(&["cat".into(), "/etc/x".into()], "/w", Some("/w".into()), true, &vec![])
        .unwrap_err()
        .message()
        .starts_with("absolute runtime argument is outside workspace: /etc/x"));
    assert_eq!(
        validate_start(&["cat".into(), "/etc/x".into()], "/w", Some("/w".into()), true, &vec![]).unwrap_err().chain(),
        "absolute runtime argument is outside workspace: /etc/x: path is outside workspace"
    );
    assert!(validate_start(&[], "/w", Some("/w".into()), true, &vec![]).is_err());
    assert_eq!(start_failure(&vec!["node".into(), "x".into()]), "could not start runtime node x");
    assert_eq!(limit_log(vec![1; LOG_LIMIT + 1]).len(), LOG_LIMIT);
    assert_eq!(limit_log(vec![1, 2]), vec![1, 2]);
}

#[test]
fn reviews_are_read() {
    assert_eq!(parse_review_status("approved").unwrap(), ReviewStatus::Approved);
    assert_eq!(parse_review_status("changes_required").unwrap(), ReviewStatus::ChangesRequired);
    assert_eq!(parse_review_status("blocked").unwrap(), ReviewStatus::Blocked);
    assert_eq!(parse_review_status("APPROVED").unwrap_err().message(), "review returned an unsupported status");
    let raw = |status: &str, finding: &str| RawReview {
        status: status.into(),
        summary: "fine".into(),
        criterion_findings: vec![RawFinding {
            criterion_id: "one".into(),
            status: finding.into(),
            summary: "seen".into(),
        }],
    };
    let read = read_review(raw("approved", "blocked")).unwrap();
    assert_eq!(read.criterion_findings[0].status, ReviewStatus::Blocked);
    assert!(read_review(raw("unknown", "blocked")).is_err());
    assert!(read_review(raw("approved", "unknown")).is_err());
    assert!(review_prompt("REQUEST", "SPECIFICATION", &vec![]).contains("SPECIFICATION"));
    let reply = parse("{\"message\":{\"content\":\"{}\"}}").unwrap();
    assert_eq!(GemmaReviewer::content(&reply).unwrap(), "{}");
    assert_eq!(
        GemmaReviewer::content(&Json::Null).unwrap_err().message(),
        "review did not return message.content"
    );
}

#[test]
fn documents_are_read_by_member() {
    let document = parse(r#"{"a":"text","n":7,"f":1.5,"l":[null,true],"o":{"b":"c"}}"#).unwrap();
    assert_eq!(document.get_str("a"), Some("text"));
    assert_eq!(document.get_str("n"), None);
    assert_eq!(document.get_number("n"), Some(7));
    assert_eq!(document.get_number("f"), None);
    assert_eq!(document.get_items("l").unwrap().len(), 2);
    assert_eq!(document.get("o").unwrap().get_str("b"), Some("c"));
    assert!(document.get("missing").is_none());
    assert!(parse("{").is_none());
    assert!(parse("1 2").is_none());
}

#[test]
fn lines_show_jobs_checks_and_models() {
    assert_eq!(local_web_url("127.0.0.1:7331", true, 7331), "http://bender.localhost:7331");
    assert_eq!(local_web_url("10.0.0.1:80", false, 80), "http://10.0.0.1:80");
    let mut store = JobStore::new("/w");
    let job = store.create("task", "web", None, 10, 1, 1);
    assert_eq!(job_line(&job.record), "job-10-1-1\tReceived\tattempt 0\tTask received");
    let check = |ok: bool, required: bool| DoctorCheck { name: "Git".into(), ok, detail: "2.0".into(), required };
    assert_eq!(check_line(&check(true, true)), "✓ Git — 2.0");
    assert_eq!(check_line(&check(false, true)), "✗ Git — 2.0");
    assert_eq!(check_line(&check(false, false)), "○ Git — 2.0");
    let settings = WorkerSettings {
        enabled: true,
        provider: "ollama".into(),
        base_url: "http://h".into(),
        model: "m".into(),
        timeout_seconds: 1,
    };
    assert_eq!(model_line("Worker", "qwen", &settings), "Worker qwen: m via ollama (http://h)");
    assert_eq!(worker_line("qwen", &settings), "qwen\tenabled\tm");
}
