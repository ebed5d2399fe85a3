use bender::jobs::{
    default_gates, gate_map, now, redact, AcceptanceCriterion, CheckExecution, CriterionStatus, GateStatus, Job, JobError,
    JobState, JobStore,
};

fn store() -> JobStore {
    JobStore::new("/srv/project")
}

fn criterion(id: &str, description: &str, evidence: &str) -> AcceptanceCriterion {
    AcceptanceCriterion::new(id, description, vec![evidence.to_string()])
}

fn check(category: &str, passed: bool) -> CheckExecution {
    CheckExecution { category: category.to_string(), result: result(passed) }
}

fn result(passed: bool) -> bender::command_runner::CommandResult {
    bender::command_runner::CommandResult {
        invocation_id: "job-1-1-1-unit-1".to_string(),
        argv: vec!["true".to_string()],
        working_directory: "/srv/project".to_string(),
        pid: 1,
        started_at: 1,
        finished_at: 2,
        elapsed_ms: 1,
        exit_code: Some(if passed { 0 } else { 1 }),
        timed_out: false,
        cancelled: false,
        stdout: String::new(),
        stderr: String::new(),
        output_truncated: false,
    }
}

#[test]
fn redaction_preserves_jsonl_event_boundaries() {
    let input = "{\"type\":\"one\"}\n{\"type\":\"two\"}\n";
    assert_eq!(redact(input), input);
    assert_eq!(redact("token=abcdefghijklmnopqrstuvwxyz\nok"), "[REDACTED]\nok");
}

#[test]
fn redaction_hides_known_prefixes_and_keeps_white_space() {
    assert_eq!(redact("key sk-abc  end"), "key [REDACTED]  end");
    assert_eq!(redact("nsec1qqq\tghp_x github_pat_y"), "[REDACTED]\t[REDACTED] [REDACTED]");
    assert_eq!(redact("token=short"), "token=short");
    assert_eq!(redact(""), "");
    let (left, right) = ("a sk-1", "ghp_2 b");
    assert_eq!(redact(&format!("{left}\n{right}")), format!("{}\n{}", redact(left), redact(right)));
}

#[test]
fn persists_every_required_job_file_and_recovers_interruption() {
    let mut store = store();
    let id = {
        let job = store.create("do it", "local", None, 10, 1, 1);
        for file in [
            "request.md",
            "conversation.jsonl",
            "specification.md",
            "requirements.json",
            "acceptance-criteria.json",
            "state.json",
            "events.jsonl",
            "worker-invocations.jsonl",
            "changed-files.json",
            "check-results.json",
            "review.json",
            "completion-gates.json",
            "final-report.md",
        ] {
            assert!(Job::files().contains(&file.to_string()), "missing {file}");
            assert_eq!(job.path(file), format!("/srv/project/.bender/jobs/{}/{file}", job.record.id));
        }
        job.transition(JobState::Working, "running", 11).unwrap();
        job.record.id.clone()
    };
    assert_eq!(store.recover_interrupted(12).unwrap(), vec![id.clone()]);
    assert_eq!(store.load(&id).unwrap().record.state, JobState::Blocked);
    assert!(store.load(&id).unwrap().record.interrupted);
    assert!(store.recover_interrupted(13).unwrap().is_empty());
}

#[test]
fn not_run_is_not_passed() {
    let mut store = store();
    let job = store.create("do it", "local", None, 10, 1, 1);
    job.set_gates(&default_gates(&vec!["unit".to_string()], false, 10));
    assert!(!job.all_required_gates_pass());
}

#[test]
fn empty_gates_and_evidence_free_criteria_cannot_complete() {
    let mut store = store();
    let job = store.create("do it", "local", None, 10, 1, 1);
    job.set_specification("approved spec", &vec![criterion("AC-1", "observable behavior", "unit_test")], 11).unwrap();
    job.approve(12).unwrap();
    assert!(!job.all_required_gates_pass());
    let mut gates = default_gates(&vec![], false, 12);
    for gate in &mut gates {
        gate.status = GateStatus::Passed;
    }
    job.set_gates(&gates);
    assert!(job.finish("claim", 13).is_err());
    assert_ne!(job.record.state, JobState::Complete);
}

#[test]
fn approval_is_enforced() {
    let mut store = store();
    let job = store.create("do it", "local", None, 10, 1, 1);
    assert!(job.approve(11).is_err());
    job.set_specification("approved spec", &vec![criterion("one", "do it", "required_check")], 12).unwrap();
    job.approve(13).unwrap();
    assert_eq!(job.record.state, JobState::Approved);
}

#[test]
fn web_controller_can_find_a_nostr_job_in_the_shared_store() {
    let mut store = store();
    let id = {
        let job = store.create("remote task", "npub-controller", Some("nostr-chat".to_string()), 10, 1, 1);
        job.set_specification("remote specification", &vec![criterion("AC-1", "remote behavior", "unit_test")], 11)
            .unwrap();
        job.record.id.clone()
    };
    assert_eq!(store.latest_awaiting_approval_any().unwrap().unwrap().record.id, id);
    assert!(store.latest_awaiting_approval("web").unwrap().is_none());
    assert_eq!(store.latest_awaiting_approval("npub-controller").unwrap().unwrap().record.id, id);
}

#[test]
fn job_ids_name_the_time_the_process_and_the_sequence() {
    let mut store = store();
    let job = store.create("task", "web", Some("chat-1".to_string()), 1700000000123, 42, 7);
    assert_eq!(job.record.id, "job-1700000000123-42-7");
    assert_eq!(job.root(), "/srv/project/.bender/jobs/job-1700000000123-42-7");
    assert_eq!(job.artifact_dir(), "/srv/project/.bender/jobs/job-1700000000123-42-7/artifacts");
    assert_eq!(job.record.message, "Task received");
    assert_eq!(job.request(), "task");
    assert_eq!(job.specification(), "");
    assert_eq!(job.events.len(), 1);
    assert_eq!(job.events[0].kind, "received");
}

#[test]
fn invalid_and_unknown_ids_are_refused() {
    let mut store = store();
    assert_eq!(store.load("task-1").unwrap_err().message(), "invalid job id");
    assert_eq!(store.load("job-../x").unwrap_err().message(), "invalid job id");
    assert_eq!(store.load("job-a\\b").unwrap_err().message(), "invalid job id");
    assert_eq!(
        store.load("job-9").unwrap_err().message(),
        "could not read /srv/project/.bender/jobs/job-9/state.json"
    );
    assert_eq!(store.load_mut("x").unwrap_err().message(), "invalid job id");
    assert!(store.load_mut("job-9").is_err());
}

#[test]
fn jobs_are_listed_newest_first() {
    let mut store = store();
    store.create("a", "web", None, 10, 1, 1);
    store.create("b", "web", None, 30, 1, 2);
    store.create("c", "web", None, 20, 1, 3);
    let ids: Vec<String> = store.list().iter().map(|record| record.id.clone()).collect();
    assert_eq!(ids, vec!["job-30-1-2", "job-20-1-3", "job-10-1-1"]);
    assert_eq!(store.latest_in_state("web", JobState::Received).unwrap().unwrap().record.id, "job-30-1-2");
    assert!(store.latest_in_state("web", JobState::Working).unwrap().is_none());
    assert!(store.latest_in_state("other", JobState::Received).unwrap().is_none());
}

#[test]
fn ended_jobs_do_not_move() {
    let mut store = store();
    let job = store.create("a", "web", None, 10, 1, 1);
    job.transition(JobState::Cancelled, "gone", 11).unwrap();
    assert_eq!(
        job.transition(JobState::Working, "again", 12).unwrap_err().message(),
        "cannot transition terminal job job-10-1-1"
    );
    assert_eq!(job.retry(13).unwrap_err().message(), "only blocked or failed jobs can be retried");
    assert_eq!(job.record.state, JobState::Cancelled);
    assert_eq!(job.record.message, "gone");
}

#[test]
fn blocked_jobs_can_be_retried() {
    let mut store = store();
    let job = store.create("a", "web", None, 10, 1, 1);
    job.transition(JobState::Blocked, "stuck", 11).unwrap();
    job.record.interrupted = true;
    job.retry(12).unwrap();
    assert_eq!(job.record.state, JobState::Approved);
    assert_eq!(job.record.message, "Job approved for retry");
    assert!(!job.record.interrupted);
}

#[test]
fn events_hide_credentials_and_name_the_state() {
    let mut store = store();
    let job = store.create("a", "web", None, 10, 1, 1);
    job.transition(JobState::Working, "with sk-secret", 11).unwrap();
    assert_eq!(job.events[1].message, "Working: with [REDACTED]");
    assert_eq!(job.events[1].kind, "state");
    assert_eq!(job.events[1].timestamp, 11);
    assert_eq!(job.record.message, "with sk-secret");
}

#[test]
fn completion_faults_come_in_order() {
    let mut store = store();
    let job = store.create("a", "web", None, 10, 1, 1);
    assert_eq!(
        job.finish("r", 11).unwrap_err().message(),
        "the specification has not been explicitly approved"
    );
    job.set_specification("s", &vec![criterion("one", "works", "unit_test")], 12).unwrap();
    job.approve(13).unwrap();
    job.record.interrupted = true;
    assert_eq!(
        job.finish("r", 14).unwrap_err().message(),
        "an interrupted job must be explicitly retried before completion"
    );
    job.record.interrupted = false;
    assert_eq!(job.finish("r", 15).unwrap_err().message(), "required completion gates have not all passed");
    let mut gates = default_gates(&vec!["unit".to_string()], false, 16);
    for gate in &mut gates {
        gate.status = GateStatus::Passed;
    }
    job.set_gates(&gates);
    assert_eq!(job.finish("r", 17).unwrap_err().message(), "acceptance criteria are missing or unverified");
    assert!(job.apply_check_evidence(&vec![check("unit", true)], "ui"));
    job.finish("the report", 18).unwrap();
    assert_eq!(job.record.state, JobState::Complete);
    assert_eq!(job.final_report, "the report");
}

#[test]
fn failing_checks_fail_criteria_and_later_checks_replace_them() {
    let mut store = store();
    let job = store.create("a", "web", None, 10, 1, 1);
    job.set_specification("s", &vec![criterion("one", "works", "unit_test")], 12).unwrap();
    assert!(!job.apply_check_evidence(&vec![check("unit", false)], "ui"));
    assert_eq!(job.criteria()[0].status, CriterionStatus::Failed);
    assert!(!job.apply_check_evidence(&vec![check("lint", true)], "ui"));
    assert_eq!(job.criteria()[0].status, CriterionStatus::Unverified);
    assert!(job.apply_check_evidence(&vec![check("unit", true)], "ui"));
    assert_eq!(job.criteria()[0].status, CriterionStatus::Verified);
    assert!(job.criteria_verified());
}

#[test]
fn manual_evidence_counts_for_manual_criteria() {
    let mut store = store();
    let job = store.create("a", "web", None, 10, 1, 1);
    job.set_specification("s", &vec![criterion("one", "looks right", "manual_verification")], 12).unwrap();
    assert_eq!(
        job.add_manual_evidence("two", "ref", "me", 13).unwrap_err().message(),
        "unknown acceptance criterion two"
    );
    job.add_manual_evidence("one", "seen", "me", 14).unwrap();
    assert_eq!(job.criteria()[0].evidence.len(), 1);
}

#[test]
fn findings_are_kept_with_their_criteria() {
    let mut store = store();
    let job = store.create("a", "web", None, 10, 1, 1);
    job.set_specification("s", &vec![criterion("one", "works", "unit_test")], 12).unwrap();
    job.add_reviewer_findings(&vec![
        ("one".to_string(), "fine".to_string()),
        ("other".to_string(), "lost".to_string()),
    ]);
    assert_eq!(job.criteria()[0].reviewer_findings, vec!["fine"]);
}

#[test]
fn a_new_gate_list_names_each_check() {
    let gates = default_gates(&vec!["unit".to_string(), "lint".to_string()], true, 5);
    let map = gate_map(&gates);
    assert!(map.get("unit passed").is_some());
    assert!(map.get("lint passed").is_some());
    assert_eq!(*map.get("unit passed").unwrap(), GateStatus::NotRun);
    assert!(map.get("build passed").is_none());
}

#[test]
fn error_messages_name_their_file() {
    assert_eq!(JobError::Unreadable("/x".to_string()).message(), "could not read /x");
    assert_eq!(JobError::InvalidFile("/x".to_string()).message(), "invalid /x");
    assert_eq!(JobError::NoOpenQuestion.message(), "no unanswered clarification question remains");
    assert_eq!(JobError::NotAwaitingApproval.message(), "job is not awaiting approval");
}

#[test]
fn the_clock_counts_milliseconds_of_the_epoch() {
    let first = now();
    let second = now();
    assert!(first > 1_600_000_000_000);
    assert!(second >= first);
}

fn stored_as(id: &str, state: JobState, at: u64) -> Job {
    let mut other = JobStore::new("/srv/project");
    other.create("stored", "web", None, at, 1, 9);
    let mut job = other.jobs.remove(0);
    job.record.id = id.to_string();
    job.record.state = state;
    job
}

#[test]
fn stored_jobs_are_found_where_they_are_stored() {
    let mut store = store();
    store.adopt(stored_as("job-10-1-9", JobState::Received, 10));
    store.adopt(stored_as("other", JobState::Received, 20));
    assert_eq!(store.jobs.len(), 2);
    let listed: Vec<String> = store.list().iter().map(|record| record.id.clone()).collect();
    assert_eq!(listed, vec!["other".to_string(), "job-10-1-9".to_string()]);
    assert_eq!(store.load("other").unwrap_err().message(), "invalid job id");
    assert_eq!(store.load("job-20-1-9").unwrap().record.id, "other");
    store.adopt(stored_as("job-20-1-9", JobState::Received, 20));
    assert_eq!(store.jobs.len(), 2);
    assert_eq!(store.load("job-20-1-9").unwrap().record.id, "job-20-1-9");
}

#[test]
fn the_newest_record_is_loaded_by_its_id() {
    let mut store = store();
    store.adopt(stored_as("job-10-1-9", JobState::AwaitingApproval, 10));
    assert_eq!(store.latest_awaiting_approval("web").unwrap().unwrap().record.id, "job-10-1-9");
    store.adopt(stored_as("job-77", JobState::AwaitingApproval, 20));
    assert_eq!(
        store.latest_awaiting_approval("web").unwrap_err().message(),
        "could not read /srv/project/.bender/jobs/job-77/state.json"
    );
    assert!(store.latest_awaiting_approval_any().is_err());
    store.adopt(stored_as("task", JobState::AwaitingApproval, 30));
    assert_eq!(store.latest_awaiting_approval_any().unwrap_err().message(), "invalid job id");
    store.adopt(stored_as("job-10-1-9", JobState::AwaitingApproval, 40));
    assert_eq!(store.latest_awaiting_approval("web").unwrap().unwrap().record.created_at, 10);
}

#[test]
fn restarts_load_each_record_by_its_id() {
    let mut store = store();
    store.adopt(stored_as("job-10-1-9", JobState::Working, 10));
    store.adopt(stored_as("job-77", JobState::Working, 20));
    store.adopt(stored_as("job-30-1-9", JobState::Reviewing, 30));
    assert_eq!(
        store.recover_interrupted(40).unwrap_err().message(),
        "could not read /srv/project/.bender/jobs/job-77/state.json"
    );
    let states: Vec<JobState> = store.jobs.iter().map(|job| job.record.state).collect();
    assert_eq!(states, vec![JobState::Working, JobState::Working, JobState::Blocked]);
    let mut store = JobStore::new("/srv/project");
    store.adopt(stored_as("job-10-1-9", JobState::Received, 10));
    store.adopt(stored_as("job-10-1-9", JobState::Working, 20));
    assert_eq!(store.recover_interrupted(40).unwrap(), vec!["job-10-1-9".to_string()]);
    assert_eq!(store.jobs[0].record.state, JobState::Blocked);
    assert!(store.jobs[0].record.interrupted);
    assert_eq!(store.jobs[1].record.state, JobState::Working);
    store.jobs[0].record.state = JobState::Complete;
    store.jobs[0].record.interrupted = false;
    assert_eq!(store.recover_interrupted(50).unwrap_err().message(), "cannot transition terminal job job-10-1-9");
    assert!(!store.jobs[0].record.interrupted);
}

#[test]
fn restarts_report_each_job_in_flight_once() {
    let mut store = JobStore::new("/srv/project");
    store.create("a", "web", None, 10, 1, 1);
    store.create("b", "web", None, 20, 1, 2);
    store.create("c", "web", None, 30, 1, 3);
    store.jobs[0].record.state = JobState::Working;
    store.jobs[2].record.state = JobState::Reviewing;
    assert_eq!(store.recover_interrupted(40).unwrap(), vec!["job-30-1-3".to_string(), "job-10-1-1".to_string()]);
    assert!(store.recover_interrupted(50).unwrap().is_empty());
}
