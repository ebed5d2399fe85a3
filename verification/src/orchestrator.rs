//! The run of an approved job: attempts of a worker, checks, review and completion.
//!
//! A run is a state machine. Each step takes what happened outside, changes the job and the run, and
//! says what has to be done next.

use vstd::prelude::*;

use crate::browser;
use crate::browser::{BrowserIssueKind, IssueView, PlaywrightEvidence};
use crate::command_runner::CommandResult;
use crate::jobs;
use crate::jobs::{CheckExecution, CompletionGate, GateStatus, GateView, Job, JobError, JobState, JobView, RecordView};
use crate::lists;
use crate::model;
use crate::paths;
use crate::project_config;
use crate::project_config::{CommandError, ProjectConfig};
use crate::review;
use crate::text;
use crate::worker::{WorkerRequest, WorkerResult};

pub use crate::review::{parse_review_status, CriterionReviewFinding, GemmaReviewer, ReviewResult, ReviewStatus};

verus! {

/// How many seconds a worker has for one attempt.
pub const WORKER_SECONDS: u64 = 1800;

/// How many seconds a check has.
pub const CHECK_SECONDS: u64 = 900;

/// What a run waits for.
#[derive(Debug, Clone, Copy, PartialEq, Eq, Structural)]
pub enum Phase {
    Worker,
    Worktree,
    Runtime,
    Check,
    Cleanup,
    Review,
    Ended,
}

/// What has to be done outside.
#[derive(Debug)]
pub enum Action {
    /// Ask the worker.
    RunWorker,
    /// Look whether the worktree holds changes.
    ProbeWorktree,
    /// Start the application and wait until it is ready.
    StartRuntime { argv: Vec<String>, readiness: String, timeout_seconds: u64 },
    /// Run a check.
    RunCheck { category: String, argv: Vec<String> },
    /// Stop the application.
    StopRuntime,
    /// Ask for a review.
    Review { prompt: String },
    /// Nothing: the run ended.
    Stop,
}

/// The content of an action.
pub enum ActionView {
    RunWorker,
    ProbeWorktree,
    StartRuntime { argv: Seq<Seq<char>>, readiness: Seq<char>, timeout_seconds: u64 },
    RunCheck { category: Seq<char>, argv: Seq<Seq<char>> },
    StopRuntime,
    Review { prompt: Seq<char> },
    Stop,
}

impl View for Action {
    type V = ActionView;

    open spec fn view(&self) -> ActionView {
        match self {
            Action::RunWorker => ActionView::RunWorker,
            Action::ProbeWorktree => ActionView::ProbeWorktree,
            Action::StartRuntime { argv, readiness, timeout_seconds } => ActionView::StartRuntime {
                argv: text::texts(argv@),
                readiness: readiness@,
                timeout_seconds: *timeout_seconds,
            },
            Action::RunCheck { category, argv } => ActionView::RunCheck {
                category: category@,
                argv: text::texts(argv@),
            },
            Action::StopRuntime => ActionView::StopRuntime,
            Action::Review { prompt } => ActionView::Review { prompt: prompt@ },
            Action::Stop => ActionView::Stop,
        }
    }
}

/// Why a run cannot go on.
#[derive(Debug)]
pub enum RunFault {
    NotApproved,
    Command(CommandError),
    Job(JobError),
}

impl RunFault {
    /// The message of the error.
    pub open spec fn text(self) -> Seq<char> {
        match self {
            RunFault::NotApproved => "job must be approved before work begins"@,
            RunFault::Command(error) => error.text(),
            RunFault::Job(error) => error.text(),
        }
    }

    /// The message of the error.
    pub fn message(&self) -> (message: String)
        ensures
            message@ == self.text(),
    {
        match self {
            RunFault::NotApproved => "job must be approved before work begins".to_string(),
            RunFault::Command(error) => error.message(),
            RunFault::Job(error) => error.message(),
        }
    }
}

/// What a step comes to: what has to be done next, or the message of what went wrong.
pub open spec fn outcome(result: Result<Action, RunFault>) -> Result<ActionView, Seq<char>> {
    match result {
        Ok(action) => Ok(action@),
        Err(fault) => Err(fault.text()),
    }
}

/// A run of a job.
#[derive(Debug)]
pub struct Run {
    pub job: Job,
    pub phase: Phase,
    pub gates: Vec<CompletionGate>,
    pub attempt: u32,
    pub session_id: Option<String>,
    pub previous_failure: Option<String>,
    pub check_history: Vec<CheckExecution>,
    pub final_summary: String,
    pub changed_files: Vec<String>,
    pub repair_evidence: Option<String>,
    pub failures: Vec<String>,
    pub runtime: bool,
    pub check: usize,
}

/// The content of a run.
pub struct RunView {
    pub job: JobView,
    pub phase: Phase,
    pub gates: Seq<GateView>,
    pub attempt: u32,
    pub session_id: Option<Seq<char>>,
    pub previous_failure: Option<Seq<char>>,
    pub check_history: Seq<CheckExecution>,
    pub final_summary: Seq<char>,
    pub changed_files: Seq<Seq<char>>,
    pub repair_evidence: Option<Seq<char>>,
    pub failures: Seq<Seq<char>>,
    pub runtime: bool,
    pub check: int,
}

impl View for Run {
    type V = RunView;

    open spec fn view(&self) -> RunView {
        RunView {
            job: self.job@,
            phase: self.phase,
            gates: model::views(self.gates@),
            attempt: self.attempt,
            session_id: model::view_of(self.session_id),
            previous_failure: model::view_of(self.previous_failure),
            check_history: self.check_history@,
            final_summary: self.final_summary@,
            changed_files: text::texts(self.changed_files@),
            repair_evidence: model::view_of(self.repair_evidence),
            failures: text::texts(self.failures@),
            runtime: self.runtime,
            check: self.check as int,
        }
    }
}

/// What runs jobs: a workspace with its policy, the name of the worker, and whether there is
/// somebody to review.
#[derive(Debug)]
pub struct Orchestrator {
    pub workspace: String,
    pub config: ProjectConfig,
    pub worker: String,
    pub reviewer: bool,
}

/// A step: the run after it, and what it comes to.
pub struct Step {
    pub run: RunView,
    pub outcome: Result<ActionView, Seq<char>>,
}

// ---------------------------------------------------------------------------
// What each step does
// ---------------------------------------------------------------------------

/// The first check without an approved command, where there is one.
pub open spec fn first_unapproved(checks: Seq<Seq<char>>, config: ProjectConfig) -> Option<Seq<char>>
    decreases checks.len(),
{
    if checks.len() == 0 {
        None
    } else if !config.commands@.contains_key(checks.first()) {
        Some(checks.first())
    } else {
        first_unapproved(checks.drop_first(), config)
    }
}

/// The gates of the browser tests.
pub open spec fn browser_gates(fail_on_console_error: bool, now: u64) -> Seq<GateView> {
    seq![
        jobs::fresh_gate("browser console errors"@, fail_on_console_error, GateStatus::NotRun, now),
        jobs::fresh_gate("browser page exceptions"@, true, GateStatus::NotRun, now),
        jobs::fresh_gate("browser page crashes"@, true, GateStatus::NotRun, now),
        jobs::fresh_gate("browser failed requests"@, true, GateStatus::NotRun, now),
        jobs::fresh_gate("Playwright assertions"@, true, GateStatus::NotRun, now),
    ]
}

/// Whether a file is, by its path, one of tests or of specifications.
pub open spec fn test_related(path: Seq<char>) -> bool {
    text::holds(text::lowered(path), "test"@) || text::holds(text::lowered(path), "spec"@)
}

/// The files of a list that are of tests or specifications.
pub open spec fn test_files(files: Seq<Seq<char>>) -> Seq<Seq<char>>
    decreases files.len(),
{
    if files.len() == 0 {
        Seq::empty()
    } else if test_related(files.last()) {
        test_files(files.drop_last()).push(files.last())
    } else {
        test_files(files.drop_last())
    }
}

/// How an issue is shown in the evidence of a gate.
pub open spec fn issue_line(issue: IssueView) -> Seq<char> {
    issue.location + " "@ + issue.message
}

/// What a gate of the browser tests shows.
pub open spec fn browser_detail(issues: Seq<IssueView>, kind: BrowserIssueKind) -> Seq<char> {
    let open = browser::unignored_issues(issues, kind);
    if open.len() == 0 {
        "No unignored "@ + kind.title() + " issues; "@ + text::digits(browser::ignored_count(issues, kind))
            + " ignored issue(s) remain recorded"@
    } else {
        text::joined(Seq::new(open.len(), |i: int| issue_line(open[i])), "\n"@)
    }
}

/// Gates and failures of an attempt.
pub struct Verdict {
    pub gates: Seq<GateView>,
    pub failures: Seq<Seq<char>>,
}

/// The gates and failures after one gate of the browser tests was judged. What it finds is a
/// failure only where that gate is required.
pub open spec fn judged(verdict: Verdict, name: Seq<char>, kind: BrowserIssueKind, issues: Seq<IssueView>, now: u64) -> Verdict {
    let failed = browser::unignored_issues(issues, kind).len() > 0;
    let detail = browser_detail(issues, kind);
    let status = if failed {
        GateStatus::Failed
    } else {
        GateStatus::Passed
    };
    let gates = jobs::gate_set(verdict.gates, name, status, detail, now);
    let i = jobs::gate_index(gates, name);
    Verdict {
        gates,
        failures: if failed && i < gates.len() && gates[i].required {
            verdict.failures.push(name + ": "@ + detail)
        } else {
            verdict.failures
        },
    }
}

/// The gates and failures after all gates of the browser tests were judged.
pub open spec fn browser_judged(verdict: Verdict, issues: Seq<IssueView>, now: u64) -> Verdict {
    let console = judged(verdict, "browser console errors"@, BrowserIssueKind::ConsoleError, issues, now);
    let exceptions = judged(console, "browser page exceptions"@, BrowserIssueKind::PageException, issues, now);
    let crashes = judged(exceptions, "browser page crashes"@, BrowserIssueKind::PageCrash, issues, now);
    let requests = judged(crashes, "browser failed requests"@, BrowserIssueKind::FailedRequest, issues, now);
    judged(requests, "Playwright assertions"@, BrowserIssueKind::AssertionFailure, issues, now)
}

/// The findings of a review, with the criteria that they are about.
pub open spec fn finding_texts(findings: Seq<CriterionReviewFinding>) -> Seq<(Seq<char>, Seq<char>)> {
    Seq::new(
        findings.len(),
        |i: int| (findings[i].criterion_id@, findings[i].status.title() + ": "@ + findings[i].summary@),
    )
}

/// What the worker is told of the attempt before.
pub open spec fn repair_text(attempt: u32, failure: Option<Seq<char>>) -> Seq<char> {
    match failure {
        Some(evidence) => "\nThis is repair attempt "@ + text::digits(attempt as nat)
            + ". Bender independently ran the approved checks. Fix the implementation; do not disable legitimate tests.\n\nFailure evidence:\n"@
            + evidence + "\n"@,
        None => Seq::empty(),
    }
}

/// What the worker is asked.
pub open spec fn worker_text(
    request: Seq<char>,
    specification: Seq<char>,
    instructions: Seq<char>,
    attempt: u32,
    failure: Option<Seq<char>>,
) -> Seq<char> {
    "You are the primary coding worker controlled by Bender. Work only inside the current workspace. Inspect the repository, implement the approved specification, update legitimate tests, and return the requested structured summary. A successful exit does not complete the job; Bender runs independent gates.\n\nOriginal request:\n"@
        + request + "\n\nApproved specification:\n"@ + specification + "\n\nProject instructions:\n"@ + instructions + "\n"@
        + repair_text(attempt, failure)
}

/// The report of a completed job.
pub open spec fn report_text(summary: Seq<char>, worker: Seq<char>, attempt: u32, files: Seq<Seq<char>>) -> Seq<char> {
    "# Job complete\n\n"@ + summary + "\n\nWorker: "@ + worker + "\nAttempts: "@ + text::digits(attempt as nat)
        + "\nChanged files:\n"@ + text::bulleted(files) + "\n\nAll configured required completion gates passed.\n"@
}

impl RunView {
    /// The run after its job came to an end.
    pub open spec fn ended(self, state: JobState, message: Seq<char>, now: u64) -> Step {
        Step {
            run: RunView { job: self.job.moved(state, message, now), phase: Phase::Ended, ..self },
            outcome: Ok(ActionView::Stop),
        }
    }

    /// The run after something went wrong.
    pub open spec fn broken(self, message: Seq<char>) -> Step {
        Step { run: RunView { phase: Phase::Ended, ..self }, outcome: Err(message) }
    }

    /// The run with its gates stored in the job.
    pub open spec fn gates_stored(self) -> RunView {
        RunView { job: JobView { gates: self.gates, ..self.job }, ..self }
    }
}

impl Orchestrator {
    /// The checks that a job needs.
    pub open spec fn checks(self) -> Seq<Seq<char>> {
        text::texts(self.config.completion.required_checks@)
    }

    /// The category of the browser tests.
    pub open spec fn ui(self) -> Seq<char> {
        self.config.ui.test_command@
    }

    /// Whether the browser tests are among the checks that a job needs.
    pub open spec fn ui_required(self) -> bool {
        self.checks().contains(self.ui())
    }

    /// The highest number of attempts.
    pub open spec fn max(self) -> u32 {
        self.config.completion.max_attempts
    }

    /// The command of a category, or the message with which it is refused.
    pub open spec fn command_of(self, category: Seq<char>) -> Result<Seq<Seq<char>>, Seq<char>> {
        match self.config.approved(category) {
            None => Err("no approved `"@ + category + "` command in .bender/project.toml"@),
            Some(argv) => match project_config::argv_fault(argv) {
                Some(fault) => Err(fault.text()),
                None => Ok(argv),
            },
        }
    }

    /// Why no job can be run by the policy, where none can.
    pub open spec fn preflight_block(self) -> Option<Seq<char>> {
        if self.checks().len() == 0 {
            Some("No required project checks are configured"@)
        } else {
            match first_unapproved(self.checks(), self.config) {
                Some(check) => Some("Required check `"@ + check + "` has no approved argv command"@),
                None => if self.ui_required() && self.config.runtime is None {
                    Some("UI testing is required but [runtime] is not configured"@)
                } else {
                    None
                },
            }
        }
    }

    /// The gates of a run that begins.
    pub open spec fn first_gates(self, now: u64) -> Seq<GateView> {
        jobs::initial_gates(self.checks(), self.config.completion.require_review, now) + if self.ui_required() {
            browser_gates(self.config.ui.fail_on_console_error, now)
        } else {
            Seq::empty()
        }
    }

    /// A run that begins.
    pub open spec fn fresh_run(self, job: JobView, gates: Seq<GateView>) -> RunView {
        RunView {
            job,
            phase: Phase::Ended,
            gates,
            attempt: 0,
            session_id: None,
            previous_failure: None,
            check_history: Seq::empty(),
            final_summary: Seq::empty(),
            changed_files: Seq::empty(),
            repair_evidence: None,
            failures: Seq::empty(),
            runtime: false,
            check: 0,
        }
    }

    /// The run of a job begins: it is refused, blocked by the policy, or the worker is asked.
    pub open spec fn begun(self, job: JobView, now: u64) -> Step {
        if job.record.state != JobState::Approved {
            self.fresh_run(job, Seq::empty()).broken("job must be approved before work begins"@)
        } else {
            match self.preflight_block() {
                Some(message) => self.fresh_run(job, Seq::empty()).ended(JobState::Blocked, message, now),
                None => {
                    let run = self.fresh_run(job, self.first_gates(now)).gates_stored();
                    if self.max() >= 1 {
                        self.attempt_begun(run, 1, now)
                    } else {
                        self.reviewing(run, now)
                    }
                },
            }
        }
    }

    /// An attempt begins.
    pub open spec fn attempt_begun(self, run: RunView, attempt: u32, now: u64) -> Step {
        let job = JobView {
            record: RecordView { attempt, current_worker: Some(self.worker@), ..run.job.record },
            ..run.job
        };
        let state = if attempt == 1 {
            JobState::Working
        } else {
            JobState::Fixing
        };
        Step {
            run: RunView {
                job: job.moved(state, self.worker@ + " attempt "@ + text::digits(attempt as nat), now),
                attempt,
                phase: Phase::Worker,
                ..run
            },
            outcome: Ok(ActionView::RunWorker),
        }
    }

    /// The worker did something.
    pub open spec fn worked(self, run: RunView, result: WorkerResult, now: u64) -> Step {
        let files = lists::sorted(run.changed_files + text::texts(result.changed_files@));
        let tests = test_files(files);
        let next = RunView {
            session_id: model::view_of(result.session_id),
            final_summary: result.summary@,
            changed_files: files,
            job: if tests.len() > 0 {
                run.job.noted(
                    "tests_modified"@,
                    "Worker modified test-related files: "@ + text::joined(tests, ", "@),
                    now,
                )
            } else {
                run.job
            },
            ..run
        };
        if files.len() > 0 {
            self.patch_known(next, true, now)
        } else {
            Step { run: RunView { phase: Phase::Worktree, ..next }, outcome: Ok(ActionView::ProbeWorktree) }
        }
    }

    /// It is known whether there is a patch.
    pub open spec fn patch_known(self, run: RunView, has_patch: bool, now: u64) -> Step {
        let next = RunView {
            gates: if has_patch {
                jobs::gate_set(
                    run.gates,
                    "patch produced"@,
                    GateStatus::Passed,
                    "Changed files: "@ + text::joined(run.changed_files, ", "@),
                    now,
                )
            } else {
                jobs::gate_set(
                    run.gates,
                    "patch produced"@,
                    GateStatus::Failed,
                    "Worker reported no changed files and Git found no worktree changes"@,
                    now,
                )
            },
            ..run
        }.gates_stored();
        if !has_patch {
            next.ended(JobState::Blocked, "Worker did not produce a patch"@, now)
        } else {
            let checking = RunView {
                job: next.job.moved(JobState::Checking, "Running approved project checks"@, now),
                failures: Seq::empty(),
                runtime: false,
                ..next
            };
            if self.ui_required() {
                let runtime = self.config.runtime->0;
                match self.command_of(runtime.start_command@) {
                    Err(message) => checking.broken(message),
                    Ok(argv) => Step {
                        run: RunView { phase: Phase::Runtime, ..checking },
                        outcome: Ok(
                            ActionView::StartRuntime {
                                argv,
                                readiness: match runtime.healthcheck_url {
                                    Some(url) => url@,
                                    None => runtime.base_url@,
                                },
                                timeout_seconds: runtime.startup_timeout_seconds,
                            },
                        ),
                    },
                }
            } else {
                self.check_due(checking, 0, now)
            }
        }
    }

    /// The first check from a position on that can run: the browser tests need the application.
    pub open spec fn due(self, from: int, runtime: bool) -> int
        decreases self.checks().len() - from,
    {
        if 0 <= from < self.checks().len() && self.checks()[from] == self.ui() && !runtime {
            self.due(from + 1, runtime)
        } else {
            from
        }
    }

    /// The next check is due, or the checks are done.
    pub open spec fn check_due(self, run: RunView, from: int, now: u64) -> Step {
        let i = self.due(from, run.runtime);
        if i >= self.checks().len() {
            if run.runtime {
                Step { run: RunView { phase: Phase::Cleanup, ..run }, outcome: Ok(ActionView::StopRuntime) }
            } else {
                self.attempt_closed(run, now)
            }
        } else {
            match self.command_of(self.checks()[i]) {
                Err(message) => run.broken(message),
                Ok(argv) => Step {
                    run: RunView { phase: Phase::Check, check: i, ..run },
                    outcome: Ok(ActionView::RunCheck { category: self.checks()[i], argv }),
                },
            }
        }
    }

    /// The application is ready.
    pub open spec fn runtime_up(self, run: RunView, pid: u32, now: u64) -> Step {
        self.check_due(
            RunView {
                job: run.job.noted("runtime"@, "Application ready with PID "@ + text::digits(pid as nat), now),
                runtime: true,
                ..run
            },
            0,
            now,
        )
    }

    /// The application did not become ready.
    pub open spec fn runtime_down(self, run: RunView, error: Seq<char>, now: u64) -> Step {
        let evidence = "Application failed readiness: "@ + error;
        self.check_due(
            RunView {
                gates: jobs::gate_set(run.gates, self.ui() + " passed"@, GateStatus::Failed, evidence, now),
                failures: run.failures.push(evidence),
                ..run
            },
            0,
            now,
        )
    }

    /// A check was run.
    pub open spec fn check_run(self, run: RunView, result: CommandResult, issues: Option<Seq<IssueView>>, now: u64) -> Step {
        let category = self.checks()[run.check];
        let start = Verdict { gates: run.gates, failures: run.failures };
        let seen = if category == self.ui() {
            browser_judged(start, issues->0, now)
        } else {
            start
        };
        let evidence = result.evidence_text();
        self.check_due(
            RunView {
                gates: jobs::gate_set(
                    seen.gates,
                    category + " passed"@,
                    if result.succeeded() {
                        GateStatus::Passed
                    } else {
                        GateStatus::Failed
                    },
                    evidence,
                    now,
                ),
                failures: if result.succeeded() {
                    seen.failures
                } else {
                    seen.failures.push("Required check `"@ + category + "` failed:\n"@ + evidence)
                },
                check_history: run.check_history.push(
                    CheckExecution { category: self.config.completion.required_checks@[run.check], result },
                ),
                ..run
            },
            run.check + 1,
            now,
        )
    }

    /// The application was stopped, or could not be.
    pub open spec fn cleaned(self, run: RunView, error: Option<Seq<char>>, now: u64) -> Step {
        match error {
            Some(message) => self.attempt_closed(
                RunView { failures: run.failures.push("Application cleanup failed: "@ + message), ..run },
                now,
            ),
            None => self.attempt_closed(
                RunView { job: run.job.noted("runtime"@, "Application process group stopped"@, now), ..run },
                now,
            ),
        }
    }

    /// An attempt is over: the job goes on to its review, or back to the worker with what failed.
    /// It is blocked where the same failure came twice in a row, or no attempt is left.
    pub open spec fn attempt_closed(self, run: RunView, now: u64) -> Step {
        let held = RunView { job: run.job.evidenced(run.check_history, self.ui()), ..run }.gates_stored();
        if held.failures.len() == 0 {
            self.reviewing(held, now)
        } else {
            let evidence = text::joined(held.failures, "\n\n"@);
            let known = RunView { previous_failure: Some(evidence), ..held };
            if held.previous_failure == Some(evidence) {
                known.ended(JobState::Blocked, "The same check failure repeated without progress"@, now)
            } else if held.attempt == self.max() {
                known.ended(JobState::Blocked, "Maximum repair attempts reached"@, now)
            } else {
                self.attempt_begun(
                    RunView {
                        job: known.job.noted("repair"@, "Check evidence returned to the coding worker"@, now),
                        repair_evidence: Some(evidence),
                        ..known
                    },
                    (held.attempt + 1) as u32,
                    now,
                )
            }
        }
    }

    /// The checks passed: a review comes next, where the policy asks for one.
    pub open spec fn reviewing(self, run: RunView, now: u64) -> Step {
        if !self.config.completion.require_review {
            self.concluded(run, now)
        } else if !self.reviewer {
            run.ended(JobState::Blocked, "Review is required but no review model is configured"@, now)
        } else {
            Step {
                run: RunView {
                    job: run.job.moved(JobState::Reviewing, "Independent review in progress"@, now),
                    phase: Phase::Review,
                    ..run
                },
                outcome: Ok(
                    ActionView::Review {
                        prompt: review::review_text(run.job.request, run.job.specification, run.check_history),
                    },
                ),
            }
        }
    }

    /// The review came back.
    pub open spec fn review_known(self, run: RunView, result: ReviewResult, now: u64) -> Step {
        let approved = result.status is Approved;
        let found = RunView {
            job: JobView {
                criteria: jobs::with_findings(run.job.criteria, finding_texts(result.criterion_findings@)),
                ..run.job
            },
            gates: jobs::gate_set(
                run.gates,
                "review approved"@,
                if approved {
                    GateStatus::Passed
                } else {
                    GateStatus::Failed
                },
                result.summary@,
                now,
            ),
            ..run
        }.gates_stored();
        if approved {
            self.concluded(found, now)
        } else {
            found.ended(JobState::Blocked, "Review returned "@ + result.status.title(), now)
        }
    }

    /// The job completes, where its criteria are met and nothing else stands against it.
    pub open spec fn concluded(self, run: RunView, now: u64) -> Step {
        let held = RunView { job: run.job.evidenced(run.check_history, self.ui()), ..run };
        let met = jobs::all_verified(held.job.criteria);
        let gated = RunView {
            gates: if met {
                jobs::gate_set(
                    held.gates,
                    "acceptance criteria verified"@,
                    GateStatus::Passed,
                    "Every required evidence type is backed by a check that actually passed"@,
                    now,
                )
            } else {
                jobs::gate_set(
                    held.gates,
                    "acceptance criteria verified"@,
                    GateStatus::Failed,
                    "One or more criteria lack required passing evidence"@,
                    now,
                )
            },
            ..held
        }.gates_stored();
        if !met {
            gated.ended(JobState::Blocked, "One or more acceptance criteria remain unverified"@, now)
        } else {
            match gated.job.completion_fault() {
                Some(message) => gated.broken(message),
                None => {
                    let report = report_text(
                        gated.final_summary,
                        self.worker@,
                        gated.job.record.attempt,
                        gated.changed_files,
                    );
                    RunView { job: JobView { final_report: report, ..gated.job }, ..gated }.ended(
                        JobState::Complete,
                        "All required completion gates passed"@,
                        now,
                    )
                },
            }
        }
    }

    /// Whether a run that has not ended can go on: its job has not come to its end, its attempt is
    /// one of those that the policy allows, and what it waits for exists.
    pub open spec fn sound(self, run: RunView) -> bool {
        &&& self.config.wf()
        &&& run.phase is Ended || {
            &&& !run.job.record.state.terminal()
            &&& self.ui_required() ==> self.config.runtime is Some
            &&& run.phase is Review || 1 <= run.attempt <= self.max()
            &&& run.phase is Check ==> 0 <= run.check < self.checks().len()
        }
    }
}

// ---------------------------------------------------------------------------
// The steps
// ---------------------------------------------------------------------------

fn end(run: &mut Run, state: JobState, message: &str, now: u64) -> (result: Result<Action, RunFault>)
    requires
        !old(run)@.job.record.state.terminal(),
    ensures
        final(run)@ == old(run)@.ended(state, message@, now).run,
        outcome(result) == old(run)@.ended(state, message@, now).outcome,
{
    let _ = run.job.transition(state, message, now);
    run.phase = Phase::Ended;
    Ok(Action::Stop)
}

fn store_gates(run: &mut Run)
    ensures
        final(run)@ == old(run)@.gates_stored(),
{
    run.job.set_gates(&run.gates);
}

fn set_gate(run: &mut Run, name: &str, status: GateStatus, evidence: String, now: u64)
    ensures
        final(run)@ == (RunView {
            gates: jobs::gate_set(old(run)@.gates, name@, status, evidence@, now),
            ..old(run)@
        }),
{
    jobs::update_gate(&mut run.gates, name, status, evidence, now);
}

fn push_failure(run: &mut Run, failure: String)
    ensures
        final(run)@ == (RunView { failures: old(run)@.failures.push(failure@), ..old(run)@ }),
{
    let ghost before = run.failures@;
    run.failures.push(failure);
    assert(text::texts(run.failures@) =~= text::texts(before).push(failure@));
}

fn modified_tests(files: &Vec<String>) -> (tests: Vec<String>)
    ensures
        text::texts(tests@) == test_files(text::texts(files@)),
{
    let mut tests: Vec<String> = Vec::new();
    let ghost all = text::texts(files@);
    let mut at: usize = 0;
    assert(all.take(0) =~= Seq::<Seq<char>>::empty());
    assert(text::texts(tests@) =~= test_files(all.take(0)));
    while at < files.len()
        invariant
            at <= files@.len(),
            all == text::texts(files@),
            text::texts(tests@) == test_files(all.take(at as int)),
        decreases files@.len() - at,
    {
        proof {
            let next = all.take(at + 1);
            assert(next.drop_last() =~= all.take(at as int));
            assert(next.last() == files@[at as int]@);
        }
        let lower = text::lower(files[at].as_str());
        if text::contains(lower.as_str(), "test") || text::contains(lower.as_str(), "spec") {
            let ghost before = tests@;
            tests.push(files[at].clone());
            assert(text::texts(tests@) =~= text::texts(before).push(files@[at as int]@));
        }
        at = at + 1;
    }
    assert(all.take(at as int) =~= all);
    tests
}

fn detail_of(evidence: &PlaywrightEvidence, kind: BrowserIssueKind) -> (detail: String)
    ensures
        detail@ == browser_detail(evidence@.issues, kind),
{
    let open = evidence.unignored(kind);
    let ghost all = browser::unignored_issues(evidence@.issues, kind);
    assert(all.len() == open@.len());
    if open.len() == 0 {
        let count: usize = evidence.count_ignored(kind);
        return "No unignored ".to_string().concat(kind.name().as_str()).concat(" issues; ").concat(
            text::decimal(count as u64).as_str(),
        ).concat(" ignored issue(s) remain recorded");
    }
    let mut lines: Vec<String> = Vec::new();
    let mut at: usize = 0;
    while at < open.len()
        invariant
            at <= open@.len(),
            all == model::views(open@),
            lines@.len() == at,
            forall|i: int| 0 <= i < at ==> (#[trigger] lines@[i])@ == issue_line(all[i]),
        decreases open@.len() - at,
    {
        assert(all[at as int] == open@[at as int]@);
        lines.push(open[at].location.clone().concat(" ").concat(open[at].message.as_str()));
        at = at + 1;
    }
    assert(text::texts(lines@) =~= Seq::new(all.len(), |i: int| issue_line(all[i])));
    text::join(&lines, "\n")
}

/// The gates and failures of a run.
pub open spec fn verdict_of(run: RunView) -> Verdict {
    Verdict { gates: run.gates, failures: run.failures }
}

fn judge(run: &mut Run, name: &str, kind: BrowserIssueKind, evidence: &PlaywrightEvidence, now: u64)
    ensures
        ({
            let verdict = judged(verdict_of(old(run)@), name@, kind, evidence@.issues, now);
            final(run)@ == (RunView { gates: verdict.gates, failures: verdict.failures, ..old(run)@ })
        }),
{
    let open = evidence.unignored(kind);
    assert(browser::unignored_issues(evidence@.issues, kind).len() == open@.len());
    let failed = open.len() > 0;
    let detail = detail_of(evidence, kind);
    let status = if failed {
        GateStatus::Failed
    } else {
        GateStatus::Passed
    };
    set_gate(run, name, status, detail.clone(), now);
    let at = jobs::find_gate(&run.gates, name);
    if failed && at < run.gates.len() && run.gates[at].required {
        assert(run@.gates[at as int] == run.gates@[at as int]@);
        push_failure(run, name.to_string().concat(": ").concat(detail.as_str()));
    } else if at < run.gates.len() {
        assert(run@.gates[at as int] == run.gates@[at as int]@);
    }
}

fn judge_browser(run: &mut Run, evidence: &PlaywrightEvidence, now: u64)
    ensures
        ({
            let verdict = browser_judged(verdict_of(old(run)@), evidence@.issues, now);
            final(run)@ == (RunView { gates: verdict.gates, failures: verdict.failures, ..old(run)@ })
        }),
{
    judge(run, "browser console errors", BrowserIssueKind::ConsoleError, evidence, now);
    judge(run, "browser page exceptions", BrowserIssueKind::PageException, evidence, now);
    judge(run, "browser page crashes", BrowserIssueKind::PageCrash, evidence, now);
    judge(run, "browser failed requests", BrowserIssueKind::FailedRequest, evidence, now);
    judge(run, "Playwright assertions", BrowserIssueKind::AssertionFailure, evidence, now);
}

fn findings_of(findings: &Vec<CriterionReviewFinding>) -> (pairs: Vec<(String, String)>)
    ensures
        jobs::finding_pairs(pairs@) == finding_texts(findings@),
{
    let mut pairs: Vec<(String, String)> = Vec::new();
    let mut at: usize = 0;
    while at < findings.len()
        invariant
            at <= findings@.len(),
            pairs@.len() == at,
            forall|i: int|
                0 <= i < at ==> (#[trigger] pairs@[i]).0@ == findings@[i].criterion_id@ && pairs@[i].1@
                    == findings@[i].status.title() + ": "@ + findings@[i].summary@,
        decreases findings@.len() - at,
    {
        let told = findings[at].status.name().concat(": ").concat(findings[at].summary.as_str());
        pairs.push((findings[at].criterion_id.clone(), told));
        at = at + 1;
    }
    assert(jobs::finding_pairs(pairs@) =~= finding_texts(findings@));
    pairs
}

fn add_browser_gates(gates: &mut Vec<CompletionGate>, fail_on_console_error: bool, now: u64)
    ensures
        model::views(final(gates)@) == model::views(old(gates)@) + browser_gates(fail_on_console_error, now),
{
    let ghost before = gates@;
    gates.push(jobs::gate("browser console errors", fail_on_console_error, GateStatus::NotRun, now));
    gates.push(jobs::gate("browser page exceptions", true, GateStatus::NotRun, now));
    gates.push(jobs::gate("browser page crashes", true, GateStatus::NotRun, now));
    gates.push(jobs::gate("browser failed requests", true, GateStatus::NotRun, now));
    gates.push(jobs::gate("Playwright assertions", true, GateStatus::NotRun, now));
    assert(model::views(gates@) =~= model::views(before) + browser_gates(fail_on_console_error, now));
}

impl Orchestrator {
    /// What runs the jobs of a workspace.
    pub fn new(workspace: String, config: ProjectConfig, worker: &str, reviewer: bool) -> (orchestrator: Self)
        ensures
            orchestrator.workspace == workspace,
            orchestrator.config == config,
            orchestrator.worker@ == worker@,
            orchestrator.reviewer == reviewer,
    {
        Orchestrator { workspace, config, worker: worker.to_string(), reviewer }
    }

    fn needs_ui(&self) -> (answer: bool)
        ensures
            answer == self.ui_required(),
    {
        paths::holds_text(&self.config.completion.required_checks, self.config.ui.test_command.as_str())
    }

    fn approved_command(&self, category: &str) -> (result: Result<Vec<String>, RunFault>)
        requires
            self.config.wf(),
        ensures
            match self.command_of(category@) {
                Ok(argv) => result is Ok && text::texts(result->Ok_0@) == argv,
                Err(message) => result is Err && result->Err_0.text() == message,
            },
    {
        match self.config.command(category) {
            Ok(argv) => Ok(model::copy_texts(argv)),
            Err(error) => Err(RunFault::Command(error)),
        }
    }

    /// Why no job can be run by the policy, where none can.
    pub fn preflight(&self) -> (block: Option<String>)
        requires
            self.config.wf(),
        ensures
            model::view_of(block) == self.preflight_block(),
    {
        let checks = &self.config.completion.required_checks;
        let ghost all = self.checks();
        assert(all.len() == checks@.len());
        if checks.len() == 0 {
            return Some("No required project checks are configured".to_string());
        }
        let mut at: usize = 0;
        assert(all.skip(0) =~= all);
        while at < checks.len()
            invariant
                at <= checks@.len(),
                checks@.len() > 0,
                self.config.wf(),
                *checks == self.config.completion.required_checks,
                all == self.checks(),
                all == text::texts(checks@),
                first_unapproved(all, self.config) == first_unapproved(all.skip(at as int), self.config),
            decreases checks@.len() - at,
        {
            assert(all.skip(at as int).first() == checks@[at as int]@);
            assert(all.skip(at as int).drop_first() =~= all.skip(at + 1));
            if !self.config.commands.contains_key(checks[at].as_str()) {
                return Some(
                    "Required check `".to_string().concat(checks[at].as_str()).concat("` has no approved argv command"),
                );
            }
            at = at + 1;
        }
        if self.needs_ui() && self.config.runtime.is_none() {
            return Some("UI testing is required but [runtime] is not configured".to_string());
        }
        None
    }

    /// Begins the run of a job.
    pub fn begin(&self, job: Job, now: u64) -> (started: (Run, Result<Action, RunFault>))
        requires
            self.config.wf(),
        ensures
            started.0@ == self.begun(job@, now).run,
            outcome(started.1) == self.begun(job@, now).outcome,
            self.sound(started.0@),
    {
        let mut run = Run {
            job,
            phase: Phase::Ended,
            gates: Vec::new(),
            attempt: 0,
            session_id: None,
            previous_failure: None,
            check_history: Vec::new(),
            final_summary: String::new(),
            changed_files: Vec::new(),
            repair_evidence: None,
            failures: Vec::new(),
            runtime: false,
            check: 0,
        };
        proof {
            assert(run@.gates =~= Seq::empty());
            assert(run@.changed_files =~= Seq::empty());
            assert(run@.failures =~= Seq::empty());
            assert(run@ == self.fresh_run(job@, Seq::empty()));
        }
        if run.job.record.state != JobState::Approved {
            return (run, Err(RunFault::NotApproved));
        }
        if let Some(message) = self.preflight() {
            let result = end(&mut run, JobState::Blocked, message.as_str(), now);
            return (run, result);
        }
        let mut gates = jobs::default_gates(
            &self.config.completion.required_checks,
            self.config.completion.require_review,
            now,
        );
        if self.needs_ui() {
            add_browser_gates(&mut gates, self.config.ui.fail_on_console_error, now);
        }
        assert(model::views(gates@) =~= self.first_gates(now));
        run.gates = gates;
        store_gates(&mut run);
        let result = if self.config.completion.max_attempts >= 1 {
            self.begin_attempt(&mut run, 1, now)
        } else {
            self.go_to_review(&mut run, now)
        };
        (run, result)
    }

    fn begin_attempt(&self, run: &mut Run, attempt: u32, now: u64) -> (result: Result<Action, RunFault>)
        requires
            self.config.wf(),
            !old(run)@.job.record.state.terminal(),
            self.ui_required() ==> self.config.runtime is Some,
            1 <= attempt <= self.max(),
        ensures
            final(run)@ == self.attempt_begun(old(run)@, attempt, now).run,
            outcome(result) == self.attempt_begun(old(run)@, attempt, now).outcome,
            self.sound(final(run)@),
    {
        run.job.record.attempt = attempt;
        run.job.record.current_worker = Some(self.worker.clone());
        let state = if attempt == 1 {
            JobState::Working
        } else {
            JobState::Fixing
        };
        let message = self.worker.clone().concat(" attempt ").concat(text::decimal(attempt as u64).as_str());
        let _ = run.job.transition(state, message.as_str(), now);
        run.attempt = attempt;
        run.phase = Phase::Worker;
        Ok(Action::RunWorker)
    }

    /// What the worker is asked in the attempt at hand.
    pub fn worker_request(&self, run: &Run, instructions: &str) -> (request: WorkerRequest)
        ensures
            request.invocation_id@ == run@.job.record.id + "-attempt-"@ + text::digits(run@.attempt as nat),
            request.job_id@ == run@.job.record.id,
            request.workspace == self.workspace,
            request.artifacts@ == paths::joined_path(run@.job.root, "artifacts"@),
            request.prompt@ == worker_text(
                run@.job.request,
                run@.job.specification,
                instructions@,
                run@.attempt,
                run@.repair_evidence,
            ),
            text::holds(
                request.prompt@,
                "\n\nApproved specification:\n"@ + run@.job.specification + "\n\nProject instructions:\n"@,
            ),
            text::holds(request.prompt@, "Original request:\n"@ + run@.job.request),
            text::holds(request.prompt@, instructions@),
            run@.repair_evidence matches Some(evidence) ==> text::holds(
                request.prompt@,
                "Failure evidence:\n"@ + evidence + "\n"@,
            ),
            request.attempt == run@.attempt,
            model::view_of(request.session_id) == run@.session_id,
            request.timeout_seconds == WORKER_SECONDS,
    {
        let failure = match &run.repair_evidence {
            Some(evidence) => Some(evidence.as_str()),
            None => None,
        };
        let prompt = worker_prompt(
            run.job.request.as_str(),
            run.job.specification.as_str(),
            instructions,
            run.attempt,
            failure,
        );
        proof {
            prompts_hold_what_the_worker_needs(
                run@.job.request,
                run@.job.specification,
                instructions@,
                run@.attempt,
                run@.repair_evidence,
            );
        }
        WorkerRequest {
            invocation_id: run.job.record.id.clone().concat("-attempt-").concat(text::decimal(run.attempt as u64).as_str()),
            job_id: run.job.record.id.clone(),
            workspace: self.workspace.clone(),
            artifacts: run.job.artifact_dir(),
            prompt,
            attempt: run.attempt,
            session_id: run.session_id.clone(),
            timeout_seconds: WORKER_SECONDS,
        }
    }

    /// The worker failed.
    pub fn worker_failed(&self, run: &mut Run, error: &str, now: u64) -> (result: Result<Action, RunFault>)
        requires
            self.sound(old(run)@),
            old(run)@.phase is Worker,
        ensures
            final(run)@ == old(run)@.ended(JobState::Failed, "Worker failed: "@ + error@, now).run,
            outcome(result) == Ok::<ActionView, Seq<char>>(ActionView::Stop),
            self.sound(final(run)@),
    {
        let message = "Worker failed: ".to_string().concat(error);
        end(run, JobState::Failed, message.as_str(), now)
    }

    /// The worker did something.
    pub fn worker_done(&self, run: &mut Run, result: &WorkerResult, now: u64) -> (next: Result<Action, RunFault>)
        requires
            self.sound(old(run)@),
            old(run)@.phase is Worker,
        ensures
            final(run)@ == self.worked(old(run)@, *result, now).run,
            outcome(next) == self.worked(old(run)@, *result, now).outcome,
            self.sound(final(run)@),
    {
        let ghost start = run@;
        run.session_id = result.session_id.clone();
        run.final_summary = result.summary.clone();
        let mut files = model::copy_texts(&run.changed_files);
        let mut more = model::copy_texts(&result.changed_files);
        let ghost first = files@;
        let ghost second = more@;
        files.append(&mut more);
        assert(text::texts(files@) =~= text::texts(first) + text::texts(second));
        run.changed_files = lists::sort_unique(&files);
        let tests = modified_tests(&run.changed_files);
        assert(text::texts(tests@).len() == tests@.len());
        if tests.len() > 0 {
            let told = "Worker modified test-related files: ".to_string().concat(text::join(&tests, ", ").as_str());
            run.job.event("tests_modified", told.as_str(), now);
        }
        assert(text::texts(run.changed_files@).len() == run.changed_files@.len());
        if run.changed_files.len() > 0 {
            self.record_patch(run, true, now)
        } else {
            run.phase = Phase::Worktree;
            Ok(Action::ProbeWorktree)
        }
    }

    /// It is known whether the worktree holds changes.
    pub fn worktree_probed(&self, run: &mut Run, has_changes: bool, now: u64) -> (next: Result<Action, RunFault>)
        requires
            self.sound(old(run)@),
            old(run)@.phase is Worktree,
        ensures
            final(run)@ == self.patch_known(old(run)@, has_changes, now).run,
            outcome(next) == self.patch_known(old(run)@, has_changes, now).outcome,
            self.sound(final(run)@),
    {
        self.record_patch(run, has_changes, now)
    }

    fn record_patch(&self, run: &mut Run, has_patch: bool, now: u64) -> (next: Result<Action, RunFault>)
        requires
            self.config.wf(),
            !old(run)@.job.record.state.terminal(),
            self.ui_required() ==> self.config.runtime is Some,
            1 <= old(run)@.attempt <= self.max(),
        ensures
            final(run)@ == self.patch_known(old(run)@, has_patch, now).run,
            outcome(next) == self.patch_known(old(run)@, has_patch, now).outcome,
            self.sound(final(run)@),
    {
        if has_patch {
            let told = "Changed files: ".to_string().concat(text::join(&run.changed_files, ", ").as_str());
            set_gate(run, "patch produced", GateStatus::Passed, told, now);
        } else {
            set_gate(
                run,
                "patch produced",
                GateStatus::Failed,
                "Worker reported no changed files and Git found no worktree changes".to_string(),
                now,
            );
        }
        store_gates(run);
        if !has_patch {
            return end(run, JobState::Blocked, "Worker did not produce a patch", now);
        }
        let _ = run.job.transition(JobState::Checking, "Running approved project checks", now);
        run.failures = Vec::new();
        assert(run@.failures =~= Seq::empty());
        run.runtime = false;
        if !self.needs_ui() {
            return self.next_check(run, 0, now);
        }
        match &self.config.runtime {
            Some(runtime) => match self.approved_command(runtime.start_command.as_str()) {
                Err(fault) => {
                    run.phase = Phase::Ended;
                    Err(fault)
                },
                Ok(argv) => {
                    let readiness = match &runtime.healthcheck_url {
                        Some(url) => url.clone(),
                        None => runtime.base_url.clone(),
                    };
                    run.phase = Phase::Runtime;
                    Ok(
                        Action::StartRuntime {
                            argv,
                            readiness,
                            timeout_seconds: runtime.startup_timeout_seconds,
                        },
                    )
                },
            },
            None => {
                assert(false);
                Ok(Action::Stop)
            },
        }
    }

    /// The application is ready.
    pub fn runtime_ready(&self, run: &mut Run, pid: u32, now: u64) -> (next: Result<Action, RunFault>)
        requires
            self.sound(old(run)@),
            old(run)@.phase is Runtime,
        ensures
            final(run)@ == self.runtime_up(old(run)@, pid, now).run,
            outcome(next) == self.runtime_up(old(run)@, pid, now).outcome,
            self.sound(final(run)@),
    {
        let told = "Application ready with PID ".to_string().concat(text::decimal(pid as u64).as_str());
        run.job.event("runtime", told.as_str(), now);
        run.runtime = true;
        self.next_check(run, 0, now)
    }

    /// The application did not become ready.
    pub fn runtime_failed(&self, run: &mut Run, error: &str, now: u64) -> (next: Result<Action, RunFault>)
        requires
            self.sound(old(run)@),
            old(run)@.phase is Runtime,
        ensures
            final(run)@ == self.runtime_down(old(run)@, error@, now).run,
            outcome(next) == self.runtime_down(old(run)@, error@, now).outcome,
            self.sound(final(run)@),
    {
        let evidence = "Application failed readiness: ".to_string().concat(error);
        let name = self.config.ui.test_command.clone().concat(" passed");
        set_gate(run, name.as_str(), GateStatus::Failed, evidence.clone(), now);
        push_failure(run, evidence);
        self.next_check(run, 0, now)
    }

    proof fn due_is(self, from: int, k: int, runtime: bool)
        requires
            0 <= from <= k <= self.checks().len(),
            from < k ==> !runtime,
            forall|i: int| from <= i < k ==> (#[trigger] self.checks()[i]) == self.ui(),
            k < self.checks().len() ==> !(self.checks()[k] == self.ui() && !runtime),
        ensures
            self.due(from, runtime) == k,
        decreases k - from,
    {
        if from < k {
            assert(self.checks()[from] == self.ui());
            self.due_is(from + 1, k, runtime);
        }
    }

    fn next_check(&self, run: &mut Run, from: usize, now: u64) -> (next: Result<Action, RunFault>)
        requires
            self.config.wf(),
            !old(run)@.job.record.state.terminal(),
            self.ui_required() ==> self.config.runtime is Some,
            1 <= old(run)@.attempt <= self.max(),
            from <= self.checks().len(),
        ensures
            final(run)@ == self.check_due(old(run)@, from as int, now).run,
            outcome(next) == self.check_due(old(run)@, from as int, now).outcome,
            self.sound(final(run)@),
    {
        let checks = &self.config.completion.required_checks;
        let ghost all = self.checks();
        assert(all.len() == checks@.len());
        let mut at: usize = from;
        while at < checks.len() && !run.runtime && text::same(checks[at].as_str(), self.config.ui.test_command.as_str())
            invariant
                from <= at <= checks@.len(),
                *run == *old(run),
                *checks == self.config.completion.required_checks,
                all == self.checks(),
                all.len() == checks@.len(),
                forall|i: int| from <= i < at ==> #[trigger] all[i] == self.ui() && !run@.runtime,
            decreases checks@.len() - at,
        {
            assert(all[at as int] == checks@[at as int]@);
            at = at + 1;
        }
        proof {
            if at < checks@.len() {
                assert(all[at as int] == checks@[at as int]@);
            }
            self.due_is(from as int, at as int, run@.runtime);
        }
        if at >= checks.len() {
            if run.runtime {
                run.phase = Phase::Cleanup;
                return Ok(Action::StopRuntime);
            }
            return self.close_attempt(run, now);
        }
        match self.approved_command(checks[at].as_str()) {
            Err(fault) => {
                run.phase = Phase::Ended;
                Err(fault)
            },
            Ok(argv) => {
                run.phase = Phase::Check;
                run.check = at;
                Ok(Action::RunCheck { category: checks[at].clone(), argv })
            },
        }
    }

    /// The name under which the check at hand is run.
    pub fn check_invocation(&self, run: &Run, category: &str) -> (invocation_id: String)
        ensures
            invocation_id@ == run@.job.record.id + "-check-"@ + category@ + "-"@ + text::digits(run@.attempt as nat),
    {
        run.job.record.id.clone().concat("-check-").concat(category).concat("-").concat(
            text::decimal(run.attempt as u64).as_str(),
        )
    }

    /// The check at hand was run. For the browser tests, what they showed is given too.
    pub fn check_done(&self, run: &mut Run, result: CommandResult, browser: Option<&PlaywrightEvidence>, now: u64) -> (next: Result<
        Action,
        RunFault,
    >)
        requires
            self.sound(old(run)@),
            old(run)@.phase is Check,
            self.checks()[old(run)@.check] == self.ui() ==> browser is Some,
        ensures
            ({
                let issues = match browser {
                    Some(evidence) => Some(evidence@.issues),
                    None => None,
                };
                &&& final(run)@ == self.check_run(old(run)@, result, issues, now).run
                &&& outcome(next) == self.check_run(old(run)@, result, issues, now).outcome
            }),
            self.sound(final(run)@),
    {
        let ghost start = run@;
        let at: usize = run.check;
        assert(self.checks()[at as int] == self.config.completion.required_checks@[at as int]@);
        assert(self.checks().len() == self.config.completion.required_checks@.len());
        assert(at < self.config.completion.required_checks.len());
        let category = self.config.completion.required_checks[at].clone();
        let evidence = result.evidence();
        if text::same(category.as_str(), self.config.ui.test_command.as_str()) {
            if let Some(seen) = browser {
                judge_browser(run, seen, now);
            }
        }
        let passed = result.success();
        let name = category.clone().concat(" passed");
        let status = if passed {
            GateStatus::Passed
        } else {
            GateStatus::Failed
        };
        set_gate(run, name.as_str(), status, evidence.clone(), now);
        if !passed {
            let told = "Required check `".to_string().concat(category.as_str()).concat("` failed:\n").concat(
                evidence.as_str(),
            );
            push_failure(run, told);
        }
        run.check_history.push(CheckExecution { category, result });
        self.next_check(run, at + 1, now)
    }

    /// The application was stopped, or could not be.
    pub fn runtime_stopped(&self, run: &mut Run, error: Option<&str>, now: u64) -> (next: Result<Action, RunFault>)
        requires
            self.sound(old(run)@),
            old(run)@.phase is Cleanup,
        ensures
            final(run)@ == self.cleaned(old(run)@, model::view_of(error), now).run,
            outcome(next) == self.cleaned(old(run)@, model::view_of(error), now).outcome,
            self.sound(final(run)@),
    {
        match error {
            Some(message) => {
                push_failure(run, "Application cleanup failed: ".to_string().concat(message));
            },
            None => {
                run.job.event("runtime", "Application process group stopped", now);
            },
        }
        self.close_attempt(run, now)
    }

    fn close_attempt(&self, run: &mut Run, now: u64) -> (next: Result<Action, RunFault>)
        requires
            self.config.wf(),
            !old(run)@.job.record.state.terminal(),
            self.ui_required() ==> self.config.runtime is Some,
            1 <= old(run)@.attempt <= self.max(),
        ensures
            final(run)@ == self.attempt_closed(old(run)@, now).run,
            outcome(next) == self.attempt_closed(old(run)@, now).outcome,
            self.sound(final(run)@),
    {
        let _ = run.job.apply_check_evidence(&run.check_history, self.config.ui.test_command.as_str());
        store_gates(run);
        assert(text::texts(run.failures@).len() == run.failures@.len());
        if run.failures.len() == 0 {
            return self.go_to_review(run, now);
        }
        let evidence = text::join(&run.failures, "\n\n");
        let repeated = match &run.previous_failure {
            Some(before) => text::same(before.as_str(), evidence.as_str()),
            None => false,
        };
        run.previous_failure = Some(evidence.clone());
        if repeated {
            return end(run, JobState::Blocked, "The same check failure repeated without progress", now);
        }
        if run.attempt == self.config.completion.max_attempts {
            return end(run, JobState::Blocked, "Maximum repair attempts reached", now);
        }
        run.job.event("repair", "Check evidence returned to the coding worker", now);
        run.repair_evidence = Some(evidence);
        let attempt: u32 = run.attempt + 1;
        self.begin_attempt(run, attempt, now)
    }

    fn go_to_review(&self, run: &mut Run, now: u64) -> (next: Result<Action, RunFault>)
        requires
            self.config.wf(),
            !old(run)@.job.record.state.terminal(),
            self.ui_required() ==> self.config.runtime is Some,
        ensures
            final(run)@ == self.reviewing(old(run)@, now).run,
            outcome(next) == self.reviewing(old(run)@, now).outcome,
            self.sound(final(run)@),
    {
        if !self.config.completion.require_review {
            return self.conclude(run, now);
        }
        if !self.reviewer {
            return end(run, JobState::Blocked, "Review is required but no review model is configured", now);
        }
        let prompt = review::review_prompt(
            run.job.request.as_str(),
            run.job.specification.as_str(),
            &run.check_history,
        );
        let _ = run.job.transition(JobState::Reviewing, "Independent review in progress", now);
        run.phase = Phase::Review;
        Ok(Action::Review { prompt })
    }

    /// The review came back.
    pub fn reviewed(&self, run: &mut Run, result: &ReviewResult, now: u64) -> (next: Result<Action, RunFault>)
        requires
            self.sound(old(run)@),
            old(run)@.phase is Review,
        ensures
            final(run)@ == self.review_known(old(run)@, *result, now).run,
            outcome(next) == self.review_known(old(run)@, *result, now).outcome,
            self.sound(final(run)@),
    {
        let findings = findings_of(&result.criterion_findings);
        run.job.add_reviewer_findings(&findings);
        let approved = result.status == ReviewStatus::Approved;
        let status = if approved {
            GateStatus::Passed
        } else {
            GateStatus::Failed
        };
        set_gate(run, "review approved", status, result.summary.clone(), now);
        store_gates(run);
        if !approved {
            let message = "Review returned ".to_string().concat(result.status.name().as_str());
            return end(run, JobState::Blocked, message.as_str(), now);
        }
        self.conclude(run, now)
    }

    fn conclude(&self, run: &mut Run, now: u64) -> (next: Result<Action, RunFault>)
        requires
            self.config.wf(),
            !old(run)@.job.record.state.terminal(),
        ensures
            final(run)@ == self.concluded(old(run)@, now).run,
            outcome(next) == self.concluded(old(run)@, now).outcome,
            self.sound(final(run)@),
    {
        let met = run.job.apply_check_evidence(&run.check_history, self.config.ui.test_command.as_str());
        if met {
            set_gate(
                run,
                "acceptance criteria verified",
                GateStatus::Passed,
                "Every required evidence type is backed by a check that actually passed".to_string(),
                now,
            );
        } else {
            set_gate(
                run,
                "acceptance criteria verified",
                GateStatus::Failed,
                "One or more criteria lack required passing evidence".to_string(),
                now,
            );
        }
        store_gates(run);
        if !met {
            return end(run, JobState::Blocked, "One or more acceptance criteria remain unverified", now);
        }
        let report = "# Job complete\n\n".to_string().concat(run.final_summary.as_str()).concat("\n\nWorker: ").concat(
            self.worker.as_str(),
        ).concat("\nAttempts: ").concat(text::decimal(run.job.record.attempt as u64).as_str()).concat(
            "\nChanged files:\n",
        ).concat(text::bullets(&run.changed_files).as_str()).concat(
            "\n\nAll configured required completion gates passed.\n",
        );
        run.phase = Phase::Ended;
        match run.job.finish(report.as_str(), now) {
            Ok(_) => Ok(Action::Stop),
            Err(error) => Err(RunFault::Job(error)),
        }
    }
}

/// What the worker is asked.
pub fn worker_prompt(request: &str, specification: &str, instructions: &str, attempt: u32, failure: Option<&str>) -> (prompt: String)
    ensures
        prompt@ == worker_text(request@, specification@, instructions@, attempt, model::view_of(failure)),
{
    let repair = match failure {
        Some(evidence) => "\nThis is repair attempt ".to_string().concat(text::decimal(attempt as u64).as_str()).concat(
            ". Bender independently ran the approved checks. Fix the implementation; do not disable legitimate tests.\n\nFailure evidence:\n",
        ).concat(evidence).concat("\n"),
        None => String::new(),
    };
    "You are the primary coding worker controlled by Bender. Work only inside the current workspace. Inspect the repository, implement the approved specification, update legitimate tests, and return the requested structured summary. A successful exit does not complete the job; Bender runs independent gates.\n\nOriginal request:\n".to_string().concat(
        request,
    ).concat("\n\nApproved specification:\n").concat(specification).concat("\n\nProject instructions:\n").concat(
        instructions,
    ).concat("\n").concat(repair.as_str())
}

/// The instructions of a project, from the two files that may hold them.
pub open spec fn instructions_text(agents: Option<Seq<char>>, own: Option<Seq<char>>) -> Seq<char> {
    match (agents, own) {
        (None, None) => "No project instruction files found; inspect the repository conventions."@,
        (Some(first), None) => "--- AGENTS.md ---\n"@ + first,
        (None, Some(second)) => "--- .bender/instructions.md ---\n"@ + second,
        (Some(first), Some(second)) => "--- AGENTS.md ---\n"@ + first + "\n\n"@ + ("--- .bender/instructions.md ---\n"@
            + second),
    }
}

/// The instructions of a project, from the contents of its two files that may hold them.
pub fn project_instructions(agents: Option<&str>, own: Option<&str>) -> (instructions: String)
    ensures
        instructions@ == instructions_text(model::view_of(agents), model::view_of(own)),
{
    let second = match own {
        Some(contents) => Some("--- .bender/instructions.md ---\n".to_string().concat(contents)),
        None => None,
    };
    match agents {
        Some(contents) => {
            let first = "--- AGENTS.md ---\n".to_string().concat(contents);
            match second {
                Some(more) => first.concat("\n\n").concat(more.as_str()),
                None => first,
            }
        },
        None => match second {
            Some(only) => only,
            None => "No project instruction files found; inspect the repository conventions.".to_string(),
        },
    }
}

/// Whether the state of the worktree, where it could be asked for, shows changes.
pub fn worktree_has_changes(status: Option<&CommandResult>) -> (answer: bool)
    ensures
        answer == (status is Some && status->0.succeeded() && !text::blank(status->0.stdout@)),
{
    match status {
        Some(result) => result.success() && !text::is_blank(result.stdout.as_str()),
        None => false,
    }
}

/// What was decided about the fallback worker.
#[derive(Debug, Clone, Copy, PartialEq, Eq, Structural)]
pub enum FallbackDecision {
    Accepted,
    Declined,
}

/// Why there is no worker.
#[derive(Debug, Clone, Copy, PartialEq, Eq, Structural)]
pub enum SelectError {
    Declined,
    NoFallback,
}

impl SelectError {
    /// The message of the error.
    pub open spec fn text(self) -> Seq<char> {
        match self {
            SelectError::Declined => "Codex is unavailable and Qwen fallback was declined"@,
            SelectError::NoFallback => "Codex is unavailable and no approved fallback is configured"@,
        }
    }

    /// The message of the error.
    pub fn message(&self) -> (message: String)
        ensures
            message@ == self.text(),
    {
        match self {
            SelectError::Declined => "Codex is unavailable and Qwen fallback was declined".to_string(),
            SelectError::NoFallback => "Codex is unavailable and no approved fallback is configured".to_string(),
        }
    }
}

/// The worker to use: the coding tool where it is available, else a fallback that was explicitly
/// accepted.
pub fn select_worker<W>(codex_available: bool, fallback: Option<(FallbackDecision, W)>, codex: W) -> (result: Result<
    W,
    SelectError,
>)
    ensures
        if codex_available {
            result == Ok::<W, SelectError>(codex)
        } else {
            match fallback {
                Some((FallbackDecision::Accepted, worker)) => result == Ok::<W, SelectError>(worker),
                Some((FallbackDecision::Declined, _)) => result == Err::<W, SelectError>(SelectError::Declined),
                None => result == Err::<W, SelectError>(SelectError::NoFallback),
            }
        },
{
    if codex_available {
        return Ok(codex);
    }
    match fallback {
        Some((FallbackDecision::Accepted, worker)) => Ok(worker),
        Some((FallbackDecision::Declined, _)) => Err(SelectError::Declined),
        None => Err(SelectError::NoFallback),
    }
}

// ---------------------------------------------------------------------------
// What the worker always gets
// ---------------------------------------------------------------------------

/// The prompt of every attempt holds the request, the approved specification and the instructions of
/// the project, each whole and under its heading; and the prompt of a repair holds the number of the
/// attempt and the exact failure.
pub proof fn prompts_hold_what_the_worker_needs(
    request: Seq<char>,
    specification: Seq<char>,
    instructions: Seq<char>,
    attempt: u32,
    failure: Option<Seq<char>>,
)
    ensures
        ({
            let prompt = worker_text(request, specification, instructions, attempt, failure);
            &&& text::holds(prompt, request)
            &&& text::holds(prompt, specification)
            &&& text::holds(prompt, instructions)
            &&& text::holds(prompt, request + "\n\nApproved specification:\n"@)
            &&& text::holds(prompt, "\n\nApproved specification:\n"@ + specification + "\n\nProject instructions:\n"@)
            &&& text::holds(prompt, "\n\nProject instructions:\n"@ + instructions + "\n"@)
            &&& failure is Some ==> {
                &&& text::holds(prompt, failure->0)
                &&& text::holds(prompt, "\nThis is repair attempt "@ + text::digits(attempt as nat))
                &&& text::holds(prompt, "Failure evidence:\n"@ + failure->0 + "\n"@)
                &&& text::holds(prompt, "do not disable legitimate tests"@)
            }
            &&& text::holds(prompt, "Original request:\n"@ + request)
            &&& text::holds(prompt, "Work only inside the current workspace."@)
            &&& text::holds(prompt, "A successful exit does not complete the job; Bender runs independent gates."@)
        }),
{
    let prompt = worker_text(request, specification, instructions, attempt, failure);
    let opening = "You are the primary coding worker controlled by Bender. Work only inside the current workspace. Inspect the repository, implement the approved specification, update legitimate tests, and return the requested structured summary. A successful exit does not complete the job; Bender runs independent gates.\n\nOriginal request:\n"@;
    let opened = opening + request;
    let repair = repair_text(attempt, failure);
    prompt_parts_are_held(
        opening,
        request,
        "\n\nApproved specification:\n"@,
        specification,
        "\n\nProject instructions:\n"@,
        instructions,
        "\n"@,
        repair,
    );
    opening_says(request);
    text::holding_is_transitive(prompt, opened, "Original request:\n"@ + request);
    text::holding_is_transitive(prompt, opened, "Work only inside the current workspace."@);
    text::holding_is_transitive(
        prompt,
        opened,
        "A successful exit does not complete the job; Bender runs independent gates."@,
    );
    if let Some(evidence) = failure {
        repairs_say(attempt, evidence);
        text::holding_is_transitive(prompt, repair, evidence);
        text::holding_is_transitive(prompt, repair, "\nThis is repair attempt "@ + text::digits(attempt as nat));
        text::holding_is_transitive(prompt, repair, "Failure evidence:\n"@ + evidence + "\n"@);
        text::holding_is_transitive(prompt, repair, "do not disable legitimate tests"@);
    }
}

proof fn prompt_parts_are_held(
    opening: Seq<char>,
    request: Seq<char>,
    first: Seq<char>,
    specification: Seq<char>,
    second: Seq<char>,
    instructions: Seq<char>,
    mark: Seq<char>,
    repair: Seq<char>,
)
    ensures
        ({
            let whole = opening + request + first + specification + second + instructions + mark + repair;
            &&& text::holds(whole, opening + request)
            &&& text::holds(whole, request)
            &&& text::holds(whole, specification)
            &&& text::holds(whole, instructions)
            &&& text::holds(whole, repair)
            &&& text::holds(whole, request + first)
            &&& text::holds(whole, first + specification + second)
            &&& text::holds(whole, second + instructions + mark)
        }),
{
    prompts_open(opening, request, first, specification, second, instructions, mark, repair);
    prompts_hold_requests(opening, request, first, specification, second, instructions, mark, repair);
    prompts_hold_specifications(opening, request, first, specification, second, instructions, mark, repair);
    prompts_hold_instructions(opening, request, first, specification, second, instructions, mark, repair);
    prompts_hold_repairs(opening, request, first, specification, second, instructions, mark, repair);
    prompts_head_specifications(opening, request, first, specification, second, instructions, mark, repair);
    prompts_frame_specifications(opening, request, first, specification, second, instructions, mark, repair);
    prompts_frame_instructions(opening, request, first, specification, second, instructions, mark, repair);
}

proof fn prompts_open(
    opening: Seq<char>,
    request: Seq<char>,
    first: Seq<char>,
    specification: Seq<char>,
    second: Seq<char>,
    instructions: Seq<char>,
    mark: Seq<char>,
    repair: Seq<char>,
)
    ensures
        text::holds(opening + request + first + specification + second + instructions + mark + repair, opening + request),
{
    text::parts_are_held(Seq::<char>::empty(), opening + request, first + specification + second + instructions + mark + repair);
    assert(Seq::<char>::empty() + (opening + request) + (first + specification + second + instructions + mark + repair) =~= opening + request + first + specification + second + instructions + mark + repair);
}

proof fn prompts_hold_requests(
    opening: Seq<char>,
    request: Seq<char>,
    first: Seq<char>,
    specification: Seq<char>,
    second: Seq<char>,
    instructions: Seq<char>,
    mark: Seq<char>,
    repair: Seq<char>,
)
    ensures
        text::holds(opening + request + first + specification + second + instructions + mark + repair, request),
{
    text::parts_are_held(opening, request, first + specification + second + instructions + mark + repair);
    assert(opening + request + (first + specification + second + instructions + mark + repair) =~= opening + request + first + specification + second + instructions + mark + repair);
}

proof fn prompts_hold_specifications(
    opening: Seq<char>,
    request: Seq<char>,
    first: Seq<char>,
    specification: Seq<char>,
    second: Seq<char>,
    instructions: Seq<char>,
    mark: Seq<char>,
    repair: Seq<char>,
)
    ensures
        text::holds(opening + request + first + specification + second + instructions + mark + repair, specification),
{
    text::parts_are_held(opening + request + first, specification, second + instructions + mark + repair);
    assert(opening + request + first + specification + (second + instructions + mark + repair) =~= opening + request + first + specification + second + instructions + mark + repair);
}

proof fn prompts_hold_instructions(
    opening: Seq<char>,
    request: Seq<char>,
    first: Seq<char>,
    specification: Seq<char>,
    second: Seq<char>,
    instructions: Seq<char>,
    mark: Seq<char>,
    repair: Seq<char>,
)
    ensures
        text::holds(opening + request + first + specification + second + instructions + mark + repair, instructions),
{
    text::parts_are_held(opening + request + first + specification + second, instructions, mark + repair);
    assert(opening + request + first + specification + second + instructions + (mark + repair) =~= opening + request + first + specification + second + instructions + mark + repair);
}

proof fn prompts_hold_repairs(
    opening: Seq<char>,
    request: Seq<char>,
    first: Seq<char>,
    specification: Seq<char>,
    second: Seq<char>,
    instructions: Seq<char>,
    mark: Seq<char>,
    repair: Seq<char>,
)
    ensures
        text::holds(opening + request + first + specification + second + instructions + mark + repair, repair),
{
    text::parts_are_held(opening + request + first + specification + second + instructions + mark, repair, Seq::<char>::empty());
    assert(opening + request + first + specification + second + instructions + mark + repair + (Seq::<char>::empty()) =~= opening + request + first + specification + second + instructions + mark + repair);
}

proof fn prompts_head_specifications(
    opening: Seq<char>,
    request: Seq<char>,
    first: Seq<char>,
    specification: Seq<char>,
    second: Seq<char>,
    instructions: Seq<char>,
    mark: Seq<char>,
    repair: Seq<char>,
)
    ensures
        text::holds(opening + request + first + specification + second + instructions + mark + repair, request + first),
{
    text::parts_are_held(opening, request + first, specification + second + instructions + mark + repair);
    assert(opening + (request + first) + (specification + second + instructions + mark + repair) =~= opening + request + first + specification + second + instructions + mark + repair);
}

proof fn prompts_frame_specifications(
    opening: Seq<char>,
    request: Seq<char>,
    first: Seq<char>,
    specification: Seq<char>,
    second: Seq<char>,
    instructions: Seq<char>,
    mark: Seq<char>,
    repair: Seq<char>,
)
    ensures
        text::holds(opening + request + first + specification + second + instructions + mark + repair, first + specification + second),
{
    text::parts_are_held(opening + request, first + specification + second, instructions + mark + repair);
    assert(opening + request + (first + specification + second) + (instructions + mark + repair) =~= opening + request + first + specification + second + instructions + mark + repair);
}

proof fn prompts_frame_instructions(
    opening: Seq<char>,
    request: Seq<char>,
    first: Seq<char>,
    specification: Seq<char>,
    second: Seq<char>,
    instructions: Seq<char>,
    mark: Seq<char>,
    repair: Seq<char>,
)
    ensures
        text::holds(opening + request + first + specification + second + instructions + mark + repair, second + instructions + mark),
{
    text::parts_are_held(opening + request + first + specification, second + instructions + mark, repair);
    assert(opening + request + first + specification + (second + instructions + mark) + (repair) =~= opening + request + first + specification + second + instructions + mark + repair);
}

proof fn opening_parts()
    ensures
        "You are the primary coding worker controlled by Bender. Work only inside the current workspace. Inspect the repository, implement the approved specification, update legitimate tests, and return the requested structured summary. A successful exit does not complete the job; Bender runs independent gates.\n\nOriginal request:\n"@
            == "You are the primary coding worker controlled by Bender. "@ + "Work only inside the current workspace."@
            + " Inspect the repository, implement the approved specification, update legitimate tests, and return the requested structured summary. "@
            + "A successful exit does not complete the job; Bender runs independent gates."@ + "\n\n"@
            + "Original request:\n"@,
{
    reveal_strlit("You are the primary coding worker controlled by Bender. ");
    reveal_strlit("Work only inside the current workspace.");
    reveal_strlit(
        " Inspect the repository, implement the approved specification, update legitimate tests, and return the requested structured summary. ",
    );
    reveal_strlit("A successful exit does not complete the job; Bender runs independent gates.");
    reveal_strlit("\n\n");
    reveal_strlit("Original request:\n");
    reveal_strlit(
        "You are the primary coding worker controlled by Bender. Work only inside the current workspace. Inspect the repository, implement the approved specification, update legitimate tests, and return the requested structured summary. A successful exit does not complete the job; Bender runs independent gates.\n\nOriginal request:\n",
    );
    assert("You are the primary coding worker controlled by Bender. Work only inside the current workspace. Inspect the repository, implement the approved specification, update legitimate tests, and return the requested structured summary. A successful exit does not complete the job; Bender runs independent gates.\n\nOriginal request:\n"@
        =~= "You are the primary coding worker controlled by Bender. "@ + "Work only inside the current workspace."@
        + " Inspect the repository, implement the approved specification, update legitimate tests, and return the requested structured summary. "@
        + "A successful exit does not complete the job; Bender runs independent gates."@ + "\n\n"@ + "Original request:\n"@);
}

proof fn opening_says(request: Seq<char>)
    ensures
        ({
            let opened =
                "You are the primary coding worker controlled by Bender. Work only inside the current workspace. Inspect the repository, implement the approved specification, update legitimate tests, and return the requested structured summary. A successful exit does not complete the job; Bender runs independent gates.\n\nOriginal request:\n"@
                + request;
            &&& text::holds(opened, "Original request:\n"@ + request)
            &&& text::holds(opened, "Work only inside the current workspace."@)
            &&& text::holds(opened, "A successful exit does not complete the job; Bender runs independent gates."@)
        }),
{
    opening_parts();
    six_parts_are_held(
        "You are the primary coding worker controlled by Bender. "@,
        "Work only inside the current workspace."@,
        " Inspect the repository, implement the approved specification, update legitimate tests, and return the requested structured summary. "@,
        "A successful exit does not complete the job; Bender runs independent gates."@,
        "\n\n"@,
        "Original request:\n"@,
        request,
    );
}

proof fn six_parts_are_held(
    a: Seq<char>,
    b: Seq<char>,
    c: Seq<char>,
    d: Seq<char>,
    e: Seq<char>,
    f: Seq<char>,
    last: Seq<char>,
)
    ensures
        text::holds(a + b + c + d + e + f + last, b),
        text::holds(a + b + c + d + e + f + last, d),
        text::holds(a + b + c + d + e + f + last, f + last),
{
    let three = a + b + c;
    let five = three + d + e;
    let whole = five + f + last;
    text::parts_are_held(a, b, c);
    text::parts_are_held(three, d, e);
    text::additions_are_held(three, d, e, b);
    text::additions_are_held(five, f, last, b);
    text::additions_are_held(five, f, last, d);
}

proof fn repair_parts()
    ensures
        ". Bender independently ran the approved checks. Fix the implementation; do not disable legitimate tests.\n\nFailure evidence:\n"@
            == ". Bender independently ran the approved checks. Fix the implementation; "@ + "do not disable legitimate tests"@
            + ".\n\n"@ + "Failure evidence:\n"@,
{
    reveal_strlit(". Bender independently ran the approved checks. Fix the implementation; ");
    reveal_strlit("do not disable legitimate tests");
    reveal_strlit(".\n\n");
    reveal_strlit("Failure evidence:\n");
    reveal_strlit(
        ". Bender independently ran the approved checks. Fix the implementation; do not disable legitimate tests.\n\nFailure evidence:\n",
    );
    assert(". Bender independently ran the approved checks. Fix the implementation; do not disable legitimate tests.\n\nFailure evidence:\n"@
        =~= ". Bender independently ran the approved checks. Fix the implementation; "@ + "do not disable legitimate tests"@
        + ".\n\n"@ + "Failure evidence:\n"@);
}

proof fn repairs_say(attempt: u32, evidence: Seq<char>)
    ensures
        ({
            let repair = repair_text(attempt, Some(evidence));
            &&& text::holds(repair, evidence)
            &&& text::holds(repair, "\nThis is repair attempt "@ + text::digits(attempt as nat))
            &&& text::holds(repair, "Failure evidence:\n"@ + evidence + "\n"@)
            &&& text::holds(repair, "do not disable legitimate tests"@)
        }),
{
    repair_parts();
    repair_parts_are_held(
        "\nThis is repair attempt "@ + text::digits(attempt as nat),
        ". Bender independently ran the approved checks. Fix the implementation; "@,
        "do not disable legitimate tests"@,
        ".\n\n"@,
        "Failure evidence:\n"@,
        evidence,
        "\n"@,
    );
}

proof fn repair_parts_are_held(
    number: Seq<char>,
    a: Seq<char>,
    b: Seq<char>,
    c: Seq<char>,
    d: Seq<char>,
    evidence: Seq<char>,
    end: Seq<char>,
)
    ensures
        ({
            let whole = number + (a + b + c + d) + evidence + end;
            &&& text::holds(whole, evidence)
            &&& text::holds(whole, number)
            &&& text::holds(whole, d + evidence + end)
            &&& text::holds(whole, b)
        }),
{
    let middle = a + b + c + d;
    let whole = number + middle + evidence + end;
    text::additions_are_held(number + middle, evidence, end, number);
    text::parts_are_held(number + middle, evidence, end);
    text::parts_are_held(Seq::empty(), number, middle);
    assert(Seq::<char>::empty() + number + middle =~= number + middle);
    text::parts_are_held(number, middle, Seq::empty());
    assert(number + middle + Seq::<char>::empty() =~= number + middle);
    text::holding_is_transitive(whole, number + middle, number);
    text::holding_is_transitive(whole, number + middle, middle);
    text::parts_are_held(a, b, c);
    text::additions_are_held(a + b + c, d, Seq::empty(), b);
    assert(a + b + c + d + Seq::<char>::empty() =~= middle);
    text::holding_is_transitive(whole, middle, b);
    let front = number + (a + b + c);
    text::additions_are_held(front, d, evidence + end, front);
    assert(front + d =~= number + middle);
    assert(front + d + (evidence + end) =~= whole);
    assert(d + (evidence + end) =~= d + evidence + end);
}

/// Prompts that differ in one thing only differ, where that thing is the request, the specification or
/// the instructions: the worker is never asked the same for two jobs that are specified differently.
pub proof fn prompts_tell_jobs_apart(
    request: Seq<char>,
    specification: Seq<char>,
    instructions: Seq<char>,
    attempt: u32,
    failure: Option<Seq<char>>,
    other: Seq<char>,
)
    ensures
        worker_text(request, specification, instructions, attempt, failure) == worker_text(
            request,
            other,
            instructions,
            attempt,
            failure,
        ) ==> specification == other,
        worker_text(request, specification, instructions, attempt, failure) == worker_text(
            other,
            specification,
            instructions,
            attempt,
            failure,
        ) ==> request == other,
        worker_text(request, specification, instructions, attempt, failure) == worker_text(
            request,
            specification,
            other,
            attempt,
            failure,
        ) ==> instructions == other,
{
    let opening = "You are the primary coding worker controlled by Bender. Work only inside the current workspace. Inspect the repository, implement the approved specification, update legitimate tests, and return the requested structured summary. A successful exit does not complete the job; Bender runs independent gates.\n\nOriginal request:\n"@;
    let one = "\n\nApproved specification:\n"@;
    let two = "\n\nProject instructions:\n"@;
    let prompt = worker_text(request, specification, instructions, attempt, failure);
    let end = "\n"@ + repair_text(attempt, failure);
    let after = two + instructions + end;
    assert(prompt == worker_text(request, other, instructions, attempt, failure) ==> specification == other) by {
        let front = opening + request + one;
        assert(prompt =~= front + specification + after);
        assert(worker_text(request, other, instructions, attempt, failure) =~= front + other + after);
        if prompt == worker_text(request, other, instructions, attempt, failure) {
            text::frames_tell_apart(front, specification, other, after);
        }
    }
    assert(prompt == worker_text(other, specification, instructions, attempt, failure) ==> request == other) by {
        let tail = one + specification + after;
        assert(prompt =~= opening + request + tail);
        assert(worker_text(other, specification, instructions, attempt, failure) =~= opening + other + tail);
        if prompt == worker_text(other, specification, instructions, attempt, failure) {
            text::frames_tell_apart(opening, request, other, tail);
        }
    }
    assert(prompt == worker_text(request, specification, other, attempt, failure) ==> instructions == other) by {
        let front = opening + request + one + specification + two;
        assert(prompt =~= front + instructions + end);
        assert(worker_text(request, specification, other, attempt, failure) =~= front + other + end);
        if prompt == worker_text(request, specification, other, attempt, failure) {
            text::frames_tell_apart(front, instructions, other, end);
        }
    }
}

/// The prompts of repairs differ where the failures do and where the attempts do, and from the prompt of
/// a first attempt, which does not depend on the number of the attempt.
pub proof fn prompts_tell_failures_apart(
    request: Seq<char>,
    specification: Seq<char>,
    instructions: Seq<char>,
    attempt: u32,
    failure: Seq<char>,
    other: Seq<char>,
    later: u32,
)
    ensures
        worker_text(request, specification, instructions, attempt, Some(failure)) == worker_text(
            request,
            specification,
            instructions,
            attempt,
            Some(other),
        ) ==> failure == other,
        worker_text(request, specification, instructions, attempt, Some(failure)) == worker_text(
            request,
            specification,
            instructions,
            later,
            Some(failure),
        ) ==> attempt == later,
        worker_text(request, specification, instructions, attempt, Some(failure)) != worker_text(
            request,
            specification,
            instructions,
            later,
            None,
        ),
        worker_text(request, specification, instructions, attempt, None) == worker_text(
            request,
            specification,
            instructions,
            later,
            None,
        ),
{
    let start = worker_text(request, specification, instructions, attempt, None);
    let middle = ". Bender independently ran the approved checks. Fix the implementation; do not disable legitimate tests.\n\nFailure evidence:\n"@;
    let label = "\nThis is repair attempt "@;
    let number = text::digits(attempt as nat);
    let prompt = worker_text(request, specification, instructions, attempt, Some(failure));
    assert(prompt =~= start + label + number + middle + failure + "\n"@);
    assert(prompt == worker_text(request, specification, instructions, attempt, Some(other)) ==> failure == other) by {
        let front = start + label + number + middle;
        assert(worker_text(request, specification, instructions, attempt, Some(other)) =~= front + other + "\n"@);
        if prompt == worker_text(request, specification, instructions, attempt, Some(other)) {
            text::frames_tell_apart(front, failure, other, "\n"@);
        }
    }
    assert(prompt == worker_text(request, specification, instructions, later, Some(failure)) ==> attempt == later) by {
        let rest = middle + failure + "\n"@;
        let next = text::digits(later as nat);
        assert(prompt =~= (start + label) + number + rest);
        assert(worker_text(request, specification, instructions, later, Some(failure)) =~= (start + label) + next + rest);
        if prompt == worker_text(request, specification, instructions, later, Some(failure)) {
            text::frames_tell_apart(start + label, number, next, rest);
            text::digits_tell_apart(attempt as nat, later as nat);
        }
    }
    reveal_strlit("\n");
    assert(prompt.len() > start.len());
}

} // verus!
