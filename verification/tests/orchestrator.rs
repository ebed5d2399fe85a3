use bender::command_runner::CommandResult;
use bender::jobs::{AcceptanceCriterion, GateStatus, Job, JobState, JobStore};
use bender::orchestrator::{
    project_instructions, select_worker, worker_prompt, worktree_has_changes, Action, FallbackDecision, Orchestrator, Run,
};
use bender::browser::PlaywrightEvidence;
use bender::project_config::{ProjectConfig, RuntimeConfig};
use bender::review::{CriterionReviewFinding, ReviewResult, ReviewStatus};
use bender::worker::WorkerResult;

fn process(id: &str, code: i32, stdout: &str) -> CommandResult {
    CommandResult {
        invocation_id: id.to_string(),
        argv: vec!["fake".to_string()],
        working_directory: "/srv/project".to_string(),
        pid: 1,
        started_at: 1,
        finished_at: 1,
        elapsed_ms: 0,
        exit_code: Some(code),
        timed_out: false,
        cancelled: false,
        stdout: stdout.to_string(),
        stderr: String::new(),
        output_truncated: false,
    }
}

fn job(specification: &str, criteria: Vec<AcceptanceCriterion>, conversation: Option<String>) -> Job {
    let mut store = JobStore::new("/srv/project");
    {
        let job = store.create("make result complete", "local", conversation, 10, 1, 1);
        job.set_specification(specification, &criteria, 11).unwrap();
        job.approve(12).unwrap();
    }
    store.jobs.remove(0)
}

fn approved_job() -> Job {
    job(
        "Write complete to result.txt.",
        vec![AcceptanceCriterion::new("one", "result is complete", vec!["unit_test".to_string()])],
        None,
    )
}

fn config_with_unit() -> ProjectConfig {
    let mut config = ProjectConfig::default();
    config.commands.insert("unit".to_string(), vec!["/srv/project/check".to_string()]);
    config.completion.required_checks = vec!["unit".to_string()];
    config
}

struct Drive<F: FnMut(u32, &str) -> CommandResult> {
    check: F,
    review: ReviewResult,
    prompts: Vec<String>,
    sessions: Vec<Option<String>>,
}

fn approval() -> ReviewResult {
    ReviewResult {
        status: ReviewStatus::Approved,
        summary: "fake review approved".to_string(),
        criterion_findings: vec![CriterionReviewFinding {
            criterion_id: "ac-1".to_string(),
            status: ReviewStatus::Approved,
            summary: "unit evidence confirms the result".to_string(),
        }],
    }
}

fn drive<F: FnMut(u32, &str) -> CommandResult>(orchestrator: &Orchestrator, job: Job, with: &mut Drive<F>) -> Run {
    let (mut run, first) = orchestrator.begin(job, 20);
    let mut action = first.unwrap();
    let mut time: u64 = 21;
    loop {
        time += 1;
        action = match action {
            Action::RunWorker => {
                let request = orchestrator.worker_request(&run, "");
                with.prompts.push(request.prompt.clone());
                with.sessions.push(request.session_id.clone());
                let result = WorkerResult {
                    worker: orchestrator.worker.clone(),
                    invocation_id: request.invocation_id.clone(),
                    session_id: Some("fake-session".to_string()),
                    summary: r#"{"status":"complete"}"#.to_string(),
                    changed_files: vec!["result.txt".to_string()],
                    tests: vec![],
                    process: process(&request.invocation_id, 0, ""),
                };
                orchestrator.worker_done(&mut run, &result, time).unwrap()
            }
            Action::ProbeWorktree => orchestrator.worktree_probed(&mut run, false, time).unwrap(),
            Action::StartRuntime { .. } => orchestrator.runtime_ready(&mut run, 77, time).unwrap(),
            Action::RunCheck { category, .. } => {
                let result = (with.check)(run.attempt, &category);
                let evidence = PlaywrightEvidence::collect(&result, "events", None, &vec![], &vec![]).unwrap();
                let browser = if category == "ui" { Some(&evidence) } else { None };
                orchestrator.check_done(&mut run, result, browser, time).unwrap()
            }
            Action::StopRuntime => orchestrator.runtime_stopped(&mut run, None, time).unwrap(),
            Action::Review { prompt } => {
                with.prompts.push(prompt);
                orchestrator.reviewed(&mut run, &with.review, time).unwrap()
            }
            Action::Stop => break,
        };
    }
    run
}

fn plain<F: FnMut(u32, &str) -> CommandResult>(check: F) -> Drive<F> {
    Drive { check, review: approval(), prompts: vec![], sessions: vec![] }
}

#[test]
fn end_to_end_failure_repair_review_and_completion() {
    let job = job(
        "Write complete to result.txt and preserve the check.",
        vec![AcceptanceCriterion::new("ac-1", "result.txt contains complete", vec!["unit_test".to_string()])],
        Some("fixture".to_string()),
    );
    let mut config = config_with_unit();
    config.completion.max_attempts = 3;
    config.completion.require_review = true;
    let orchestrator = Orchestrator::new("/srv/project".to_string(), config, "fake_codex", true);
    let mut with = plain(|attempt, category| {
        process(category, if attempt == 1 { 1 } else { 0 }, if attempt == 1 { "incomplete" } else { "complete" })
    });
    let completed = drive(&orchestrator, job, &mut with);
    assert_eq!(completed.job.record.state, JobState::Complete, "{}", completed.job.record.message);
    assert_eq!(completed.job.record.attempt, 2);
    assert!(completed.job.all_required_gates_pass());
    assert!(completed
        .job
        .events
        .iter()
        .any(|event| event.message.contains("Check evidence returned to the coding worker")));
    assert!(with.prompts[1].contains("incomplete"));
    assert_eq!(with.sessions, vec![None, Some("fake-session".to_string())]);
    assert_eq!(completed.job.criteria()[0].reviewer_findings.len(), 1);
}

#[test]
fn fallback_requires_explicit_acceptance() {
    assert!(select_worker(false, Some((FallbackDecision::Declined, "fake_ollama")), "fake_codex").is_err());
    assert_eq!(
        select_worker(false, Some((FallbackDecision::Accepted, "fake_ollama")), "fake_codex").unwrap(),
        "fake_ollama"
    );
}

#[test]
fn the_primary_worker_needs_no_fallback() {
    assert_eq!(select_worker(true, None, "codex").unwrap(), "codex");
    assert_eq!(select_worker(true, Some((FallbackDecision::Accepted, "qwen")), "codex").unwrap(), "codex");
    assert_eq!(
        select_worker(false, None, "codex").unwrap_err().message(),
        "Codex is unavailable and no approved fallback is configured"
    );
    assert_eq!(
        select_worker(false, Some((FallbackDecision::Declined, "qwen")), "codex").unwrap_err().message(),
        "Codex is unavailable and Qwen fallback was declined"
    );
}

#[test]
fn missing_checks_and_missing_ui_runtime_block_completion() {
    let mut no_checks = ProjectConfig::default();
    no_checks.completion.required_checks.clear();
    let orchestrator = Orchestrator::new("/srv/project".to_string(), no_checks, "static_worker", false);
    let result = drive(&orchestrator, approved_job(), &mut plain(|_, id| process(id, 0, "")));
    assert_eq!(result.job.record.state, JobState::Blocked);

    let mut ui = ProjectConfig::default();
    ui.commands.insert("ui".to_string(), vec!["true".to_string()]);
    ui.completion.required_checks = vec!["ui".to_string()];
    ui.ui.enabled = true;
    let orchestrator = Orchestrator::new("/srv/project".to_string(), ui, "static_worker", false);
    let result = drive(&orchestrator, approved_job(), &mut plain(|_, id| process(id, 0, "")));
    assert_eq!(result.job.record.state, JobState::Blocked);
    assert!(result.job.record.message.contains("[runtime]"));
}

#[test]
fn unapproved_checks_block_a_run() {
    let mut config = ProjectConfig::default();
    config.completion.required_checks = vec!["unit".to_string()];
    let orchestrator = Orchestrator::new("/srv/project".to_string(), config, "worker", false);
    assert_eq!(
        orchestrator.preflight().unwrap(),
        "Required check `unit` has no approved argv command"
    );
    let result = drive(&orchestrator, approved_job(), &mut plain(|_, id| process(id, 0, "")));
    assert_eq!(result.job.record.state, JobState::Blocked);
}

#[test]
fn repeated_failure_is_detected_without_disabling_test() {
    let mut config = config_with_unit();
    config.completion.max_attempts = 3;
    let orchestrator = Orchestrator::new("/srv/project".to_string(), config, "static_worker", false);
    let result = drive(&orchestrator, approved_job(), &mut plain(|_, _| process("unit", 1, "")));
    assert_eq!(result.job.record.state, JobState::Blocked);
    assert_eq!(result.job.record.attempt, 2);
    assert!(result.job.record.message.contains("same check failure"));
}

#[test]
fn worker_complete_claim_cannot_bypass_failed_tests() {
    let mut config = config_with_unit();
    config.completion.max_attempts = 1;
    let orchestrator = Orchestrator::new("/srv/project".to_string(), config, "static_worker", false);
    let result = drive(&orchestrator, approved_job(), &mut plain(|_, _| process("unit", 1, "")));
    assert_ne!(result.job.record.state, JobState::Complete);
    assert_eq!(result.job.record.state, JobState::Blocked);
    assert!(result
        .job
        .gates()
        .iter()
        .any(|gate| gate.name == "unit passed" && gate.status == GateStatus::Failed));
}

#[test]
fn reviewer_rejection_blocks_complete_state() {
    let mut config = ProjectConfig::default();
    config.commands.insert("unit".to_string(), vec!["/srv/project/check".to_string()]);
    config.completion.require_review = true;
    let orchestrator = Orchestrator::new("/srv/project".to_string(), config, "static_worker", true);
    let mut with = plain(|_, _| process("unit", 0, ""));
    with.review = ReviewResult {
        status: ReviewStatus::ChangesRequired,
        summary: "acceptance criterion is not demonstrated".to_string(),
        criterion_findings: vec![],
    };
    let result = drive(&orchestrator, approved_job(), &mut with);
    assert_eq!(result.job.record.state, JobState::Blocked);
    assert!(result.job.record.message.contains("ChangesRequired"));
}

#[test]
fn required_reviews_without_a_model_block() {
    let mut config = config_with_unit();
    config.completion.require_review = true;
    let orchestrator = Orchestrator::new("/srv/project".to_string(), config, "worker", false);
    let result = drive(&orchestrator, approved_job(), &mut plain(|_, _| process("unit", 0, "")));
    assert_eq!(result.job.record.state, JobState::Blocked);
    assert_eq!(result.job.record.message, "Review is required but no review model is configured");
}

#[test]
fn jobs_that_were_not_approved_are_not_run() {
    let mut store = JobStore::new("/srv/project");
    store.create("task", "local", None, 10, 1, 1);
    let orchestrator = Orchestrator::new("/srv/project".to_string(), config_with_unit(), "worker", false);
    let (run, outcome) = orchestrator.begin(store.jobs.remove(0), 20);
    assert_eq!(outcome.unwrap_err().message(), "job must be approved before work begins");
    assert_eq!(run.job.record.state, JobState::Received);
}

#[test]
fn failing_workers_end_the_run() {
    let orchestrator = Orchestrator::new("/srv/project".to_string(), config_with_unit(), "worker", false);
    let (mut run, _) = orchestrator.begin(approved_job(), 20);
    let action = orchestrator.worker_failed(&mut run, "no such program", 21).unwrap();
    assert!(matches!(action, Action::Stop));
    assert!(run.job.record.state.is_terminal());
    assert_ne!(run.job.record.state, JobState::Complete);
    assert!(run.job.record.message.contains("no such program"));
}

#[test]
fn browser_failures_are_repaired_and_the_runtime_is_stopped() {
    let job = job(
        "Repair the browser behavior.",
        vec![
            AcceptanceCriterion::new("AC-1", "Unit behavior passes", vec!["unit_test".to_string()]),
            AcceptanceCriterion::new("AC-2", "Browser behavior passes", vec!["browser_test".to_string()]),
            AcceptanceCriterion::new("AC-3", "All configured evidence passes", vec!["required_check".to_string()]),
        ],
        None,
    );
    let mut config = config_with_unit();
    config.commands.insert("ui".to_string(), vec!["/srv/project/ui".to_string()]);
    config.commands.insert("serve".to_string(), vec!["node".to_string(), "server.mjs".to_string()]);
    config.completion.required_checks = vec!["unit".to_string(), "ui".to_string()];
    config.completion.max_attempts = 4;
    config.completion.require_review = true;
    config.ui.enabled = true;
    config.ui.test_command = "ui".to_string();
    config.runtime = Some(RuntimeConfig {
        start_command: "serve".to_string(),
        base_url: "http://127.0.0.1:5000".to_string(),
        healthcheck_url: Some("http://127.0.0.1:5000/health".to_string()),
        startup_timeout_seconds: 5,
    });
    let orchestrator = Orchestrator::new("/srv/project".to_string(), config, "fake_codex", true);
    let report = |status: &str| {
        format!(
            r#"{{"suites":[{{"title":"fixture","specs":[{{"title":"button works","file":"fixture.spec.ts","line":12,"tests":[{{"status":"{status}"}}]}}]}}]}}"#
        )
    };
    let mut with = plain(|attempt, category| match (category, attempt) {
        ("unit", 1) => process("unit", 1, "unit failed"),
        ("unit", _) => process("unit", 0, ""),
        (_, 2) => process("ui", 1, &report("unexpected")),
        (_, _) => process("ui", 0, &report("passed")),
    });
    let completed = drive(&orchestrator, job, &mut with);
    assert_eq!(completed.job.record.state, JobState::Complete, "{}", completed.job.record.message);
    assert_eq!(completed.job.record.attempt, 3);
    assert!(completed.job.all_required_gates_pass());
    assert!(completed.job.criteria_verified());
    let last: Vec<(String, bool)> = completed.check_history[completed.check_history.len() - 2..]
        .iter()
        .map(|check| (check.category.clone(), check.result.success()))
        .collect();
    assert_eq!(last, vec![("unit".to_string(), true), ("ui".to_string(), true)]);
}

#[test]
fn applications_that_do_not_become_ready_fail_the_browser_tests() {
    let mut config = config_with_unit();
    config.commands.insert("ui".to_string(), vec!["/srv/project/ui".to_string()]);
    config.commands.insert("serve".to_string(), vec!["node".to_string(), "server.mjs".to_string()]);
    config.completion.required_checks = vec!["ui".to_string(), "unit".to_string()];
    config.completion.max_attempts = 1;
    config.runtime = Some(RuntimeConfig {
        start_command: "serve".to_string(),
        base_url: "http://127.0.0.1:5000".to_string(),
        healthcheck_url: None,
        startup_timeout_seconds: 5,
    });
    let orchestrator = Orchestrator::new("/srv/project".to_string(), config, "worker", false);
    let (mut run, _) = orchestrator.begin(approved_job(), 20);
    let worked = WorkerResult {
        worker: "worker".to_string(),
        invocation_id: "job-10-1-1-attempt-1".to_string(),
        session_id: None,
        summary: String::new(),
        changed_files: vec!["result.txt".to_string()],
        tests: vec![],
        process: process("worker", 0, ""),
    };
    match orchestrator.worker_done(&mut run, &worked, 21).unwrap() {
        Action::StartRuntime { argv, readiness, timeout_seconds } => {
            assert_eq!(argv, vec!["node".to_string(), "server.mjs".to_string()]);
            assert_eq!(readiness, "http://127.0.0.1:5000");
            assert_eq!(timeout_seconds, 5);
        }
        other => panic!("{other:?}"),
    }
    match orchestrator.runtime_failed(&mut run, "runtime exited", 22).unwrap() {
        Action::RunCheck { category, argv } => {
            assert_eq!(category, "unit");
            assert_eq!(argv, vec!["/srv/project/check".to_string()]);
        }
        other => panic!("{other:?}"),
    }
    assert_eq!(orchestrator.check_invocation(&run, "unit"), "job-10-1-1-check-unit-1");
    let last = orchestrator.check_done(&mut run, process("unit", 0, ""), None, 23).unwrap();
    assert!(matches!(last, Action::Stop));
    assert_eq!(run.job.record.state, JobState::Blocked);
    assert_eq!(run.job.record.message, "Maximum repair attempts reached");
    assert!(run.job.gates().iter().any(|gate| gate.name == "ui passed"
        && gate.status == GateStatus::Failed
        && gate.evidence == "Application failed readiness: runtime exited"));
}

#[test]
fn prompts_carry_the_failure_back() {
    let first = worker_prompt("request", "specification", "rules", 1, None);
    let second = worker_prompt("request", "specification", "rules", 2, Some("unit failed"));
    assert!(first.contains("request") && first.contains("specification") && first.contains("rules"));
    assert!(!first.contains("unit failed"));
    assert!(second.contains("unit failed"));
}

#[test]
fn instructions_come_from_both_files() {
    let both = project_instructions(Some("A"), Some("B"));
    assert!(both.contains("A") && both.contains("B"));
    assert_ne!(project_instructions(None, None), both);
}

#[test]
fn worktrees_have_changes_where_git_prints_some() {
    assert!(worktree_has_changes(Some(&process("git", 0, " M src/lib.rs\n"))));
    assert!(!worktree_has_changes(Some(&process("git", 0, "\n"))));
    assert!(!worktree_has_changes(Some(&process("git", 1, " M src/lib.rs\n"))));
    assert!(!worktree_has_changes(None));
}
