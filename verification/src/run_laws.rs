//! What holds of every run.

use vstd::prelude::*;

use crate::browser::IssueView;
use crate::command_runner::CommandResult;
use crate::jobs;
use crate::jobs::{CheckExecution, GateView, JobState, JobView};
use crate::orchestrator;
use crate::orchestrator::{ActionView, Orchestrator, Phase, RunView, Step};
use crate::review::ReviewResult;
use crate::text;
use crate::worker::WorkerResult;

verus! {

/// What can happen outside while a run waits.
pub enum Happening {
    WorkerFailed(Seq<char>),
    WorkerDone(WorkerResult),
    WorktreeProbed(bool),
    RuntimeReady(u32),
    RuntimeFailed(Seq<char>),
    CheckDone(CommandResult, Option<Seq<IssueView>>),
    RuntimeStopped(Option<Seq<char>>),
    Reviewed(ReviewResult),
}

impl Happening {
    /// The phase in which a run waits for this.
    pub open spec fn phase(self) -> Phase {
        match self {
            Happening::WorkerFailed(_) => Phase::Worker,
            Happening::WorkerDone(_) => Phase::Worker,
            Happening::WorktreeProbed(_) => Phase::Worktree,
            Happening::RuntimeReady(_) => Phase::Runtime,
            Happening::RuntimeFailed(_) => Phase::Runtime,
            Happening::CheckDone(_, _) => Phase::Check,
            Happening::RuntimeStopped(_) => Phase::Cleanup,
            Happening::Reviewed(_) => Phase::Review,
        }
    }
}

/// The step that a run takes when something happens.
pub open spec fn stepped(orchestrator: Orchestrator, run: RunView, happening: Happening, now: u64) -> Step {
    match happening {
        Happening::WorkerFailed(error) => run.ended(JobState::Failed, "Worker failed: "@ + error, now),
        Happening::WorkerDone(result) => orchestrator.worked(run, result, now),
        Happening::WorktreeProbed(changes) => orchestrator.patch_known(run, changes, now),
        Happening::RuntimeReady(pid) => orchestrator.runtime_up(run, pid, now),
        Happening::RuntimeFailed(error) => orchestrator.runtime_down(run, error, now),
        Happening::CheckDone(result, issues) => orchestrator.check_run(run, result, issues, now),
        Happening::RuntimeStopped(error) => orchestrator.cleaned(run, error, now),
        Happening::Reviewed(result) => orchestrator.review_known(run, result, now),
    }
}

/// Whether a run waits for this and can go on.
pub open spec fn awaits(orchestrator: Orchestrator, run: RunView, happening: Happening) -> bool {
    orchestrator.sound(run) && run.phase == happening.phase() && !(run.phase is Ended)
}

/// Whether a completed job earned it.
pub open spec fn earned(job: JobView) -> bool {
    job.record.state is Complete ==> {
        &&& job.record.approved_at is Some
        &&& !job.record.interrupted
        &&& jobs::gates_pass(job.gates)
        &&& jobs::all_verified(job.criteria)
    }
}

/// The worker is asked only for a job that was approved; a job that was not is left as it is.
pub proof fn no_work_before_approval(orchestrator: Orchestrator, job: JobView, now: u64)
    requires
        !(job.record.state is Approved),
    ensures
        orchestrator.begun(job, now).outcome is Err,
        orchestrator.begun(job, now).run.job == job,
        orchestrator.begun(job, now).run.phase is Ended,
{
}

/// No step of a run leads to a completed job that is not approved, was interrupted, or has a required
/// gate that did not pass or a criterion that is not met.
pub proof fn runs_complete_only_when_earned(orchestrator: Orchestrator, run: RunView, happening: Happening, now: u64)
    requires
        awaits(orchestrator, run, happening),
    ensures
        earned(stepped(orchestrator, run, happening, now).run.job),
{
}

/// A job is not completed by the beginning of its run unless it earned it.
pub proof fn beginnings_complete_only_when_earned(orchestrator: Orchestrator, job: JobView, now: u64)
    requires
        earned(job),
    ensures
        earned(orchestrator.begun(job, now).run.job),
{
}

/// Whether a step leaves a job at an end exactly where there is nothing more to do, and then ends the
/// run; it ends the run besides only where something went wrong.
pub open spec fn tidy(step: Step) -> bool {
    &&& step.outcome == Ok::<ActionView, Seq<char>>(ActionView::Stop) <==> step.run.job.record.state.terminal()
    &&& step.run.phase is Ended <==> step.outcome is Err || step.run.job.record.state.terminal()
}

proof fn conclusions_are_tidy(orchestrator: Orchestrator, run: RunView, now: u64)
    requires
        !run.job.record.state.terminal(),
    ensures
        tidy(orchestrator.concluded(run, now)),
{
}

proof fn reviews_are_tidy(orchestrator: Orchestrator, run: RunView, now: u64)
    requires
        !run.job.record.state.terminal(),
    ensures
        tidy(orchestrator.reviewing(run, now)),
{
    conclusions_are_tidy(orchestrator, run, now);
}

proof fn closings_are_tidy(orchestrator: Orchestrator, run: RunView, now: u64)
    requires
        !run.job.record.state.terminal(),
    ensures
        tidy(orchestrator.attempt_closed(run, now)),
{
    let held = RunView { job: run.job.evidenced(run.check_history, orchestrator.ui()), ..run }.gates_stored();
    reviews_are_tidy(orchestrator, held, now);
}

proof fn checks_are_tidy(orchestrator: Orchestrator, run: RunView, from: int, now: u64)
    requires
        !run.job.record.state.terminal(),
    ensures
        tidy(orchestrator.check_due(run, from, now)),
{
    closings_are_tidy(orchestrator, run, now);
}

proof fn patches_are_tidy(orchestrator: Orchestrator, run: RunView, has_patch: bool, now: u64)
    requires
        !run.job.record.state.terminal(),
    ensures
        tidy(orchestrator.patch_known(run, has_patch, now)),
{
    assert forall|next: RunView| !next.job.record.state.terminal() implies tidy(
        #[trigger] orchestrator.check_due(next, 0, now),
    ) by {
        checks_are_tidy(orchestrator, next, 0, now);
    }
}

/// A run that has nothing more to do leaves its job at an end, and only such a run does.
pub proof fn stopped_runs_leave_ended_jobs(orchestrator: Orchestrator, run: RunView, happening: Happening, now: u64)
    requires
        awaits(orchestrator, run, happening),
    ensures
        tidy(stepped(orchestrator, run, happening, now)),
{
    assert forall|next: RunView, from: int| !next.job.record.state.terminal() implies tidy(
        #[trigger] orchestrator.check_due(next, from, now),
    ) by {
        checks_are_tidy(orchestrator, next, from, now);
    }
    assert forall|next: RunView| !next.job.record.state.terminal() implies tidy(
        #[trigger] orchestrator.attempt_closed(next, now),
    ) by {
        closings_are_tidy(orchestrator, next, now);
    }
    assert forall|next: RunView, has_patch: bool| !next.job.record.state.terminal() implies tidy(
        #[trigger] orchestrator.patch_known(next, has_patch, now),
    ) by {
        patches_are_tidy(orchestrator, next, has_patch, now);
    }
    assert forall|next: RunView| !next.job.record.state.terminal() implies tidy(
        #[trigger] orchestrator.concluded(next, now),
    ) by {
        conclusions_are_tidy(orchestrator, next, now);
    }
    match happening {
        Happening::WorkerFailed(error) => {},
        Happening::WorkerDone(result) => {},
        Happening::WorktreeProbed(changes) => {},
        Happening::RuntimeReady(pid) => {},
        Happening::RuntimeFailed(error) => {},
        Happening::CheckDone(result, issues) => {},
        Happening::RuntimeStopped(error) => {},
        Happening::Reviewed(result) => {},
    }
}

/// How many attempts a run has left, its review counted as less and its end as the least.
pub open spec fn attempts_left(orchestrator: Orchestrator, run: RunView) -> int {
    match run.phase {
        Phase::Ended => 0,
        Phase::Review => 1,
        _ => 2 + orchestrator.max() - run.attempt,
    }
}

/// How much of its attempt a run has left.
pub open spec fn attempt_left(orchestrator: Orchestrator, run: RunView) -> int {
    let checks = orchestrator.checks().len() as int;
    match run.phase {
        Phase::Worker => checks + 4,
        Phase::Worktree => checks + 3,
        Phase::Runtime => checks + 2,
        Phase::Check => checks - run.check + 1,
        Phase::Cleanup => 1,
        Phase::Review => 0,
        Phase::Ended => 0,
    }
}

/// Whether one run is closer to its end than another.
pub open spec fn closer(orchestrator: Orchestrator, after: RunView, before: RunView) -> bool {
    ||| 0 <= attempts_left(orchestrator, after) < attempts_left(orchestrator, before)
    ||| attempts_left(orchestrator, after) == attempts_left(orchestrator, before) && 0 <= attempt_left(
        orchestrator,
        after,
    ) < attempt_left(orchestrator, before)
}

proof fn due_goes_on(orchestrator: Orchestrator, from: int, runtime: bool)
    requires
        0 <= from <= orchestrator.checks().len(),
    ensures
        from <= orchestrator.due(from, runtime) <= orchestrator.checks().len(),
    decreases orchestrator.checks().len() - from,
{
    if from < orchestrator.checks().len() && orchestrator.checks()[from] == orchestrator.ui() && !runtime {
        due_goes_on(orchestrator, from + 1, runtime);
    }
}

/// Every step brings a run closer to its end, so every run ends; and no attempt goes beyond the
/// highest number that the policy allows.
pub proof fn every_step_makes_progress(orchestrator: Orchestrator, run: RunView, happening: Happening, now: u64)
    requires
        awaits(orchestrator, run, happening),
    ensures
        closer(orchestrator, stepped(orchestrator, run, happening, now).run, run),
        run.attempt <= orchestrator.max() ==> stepped(orchestrator, run, happening, now).run.attempt <= orchestrator.max(),
{
    due_goes_on(orchestrator, 0, true);
    due_goes_on(orchestrator, 0, false);
    due_goes_on(orchestrator, 0, run.runtime);
    if run.phase is Check {
        due_goes_on(orchestrator, run.check + 1, run.runtime);
    }
}

/// A failure that comes twice in a row blocks the job, and so does a failure of the last attempt.
pub proof fn failures_without_progress_block(orchestrator: Orchestrator, run: RunView, now: u64)
    requires
        run.failures.len() > 0,
        run.previous_failure == Some(text::joined(run.failures, "\n\n"@)) || run.attempt == orchestrator.max(),
    ensures
        orchestrator.attempt_closed(run, now).run.job.record.state is Blocked,
        orchestrator.attempt_closed(run, now).outcome == Ok::<ActionView, Seq<char>>(ActionView::Stop),
{
}

/// A job whose review is required does not complete before the review approves it.
pub proof fn required_reviews_are_asked_for(orchestrator: Orchestrator, run: RunView, now: u64)
    requires
        orchestrator.config.completion.require_review,
        run.failures.len() == 0,
        !run.job.record.state.terminal(),
    ensures
        ({
            let step = orchestrator.attempt_closed(run, now);
            if orchestrator.reviewer {
                step.run.job.record.state is Reviewing && step.run.phase is Review
            } else {
                step.run.job.record.state is Blocked
            }
        }),
{
}

// ---------------------------------------------------------------------------
// Whole runs
// ---------------------------------------------------------------------------

/// A run after things happened, each with its time.
pub open spec fn ran(orchestrator: Orchestrator, job: JobView, start: u64, turns: Seq<(Happening, u64)>) -> RunView
    decreases turns.len(),
{
    if turns.len() == 0 {
        orchestrator.begun(job, start).run
    } else {
        stepped(orchestrator, ran(orchestrator, job, start, turns.drop_last()), turns.last().0, turns.last().1).run
    }
}

/// Whether a run waited for each of the things that happened.
pub open spec fn possible(orchestrator: Orchestrator, job: JobView, start: u64, turns: Seq<(Happening, u64)>) -> bool
    decreases turns.len(),
{
    turns.len() == 0 || {
        &&& possible(orchestrator, job, start, turns.drop_last())
        &&& awaits(orchestrator, ran(orchestrator, job, start, turns.drop_last()), turns.last().0)
    }
}

/// Whether the last checks that were run are the first ones that a job needs, in their order, and each
/// succeeded.
pub open spec fn last_passed(orchestrator: Orchestrator, history: Seq<CheckExecution>, count: int) -> bool {
    &&& count <= history.len()
    &&& forall|i: int|
        0 <= i < count ==> (#[trigger] history[history.len() - count + i]).category@ == orchestrator.checks()[i]
            && history[history.len() - count + i].result.succeeded()
}

/// Whether nothing was tried: the first required check has its gate, which shows that it was not run.
pub open spec fn untried(orchestrator: Orchestrator, run: RunView) -> bool {
    &&& orchestrator.checks().len() > 0
    &&& run.gates.len() > 3
    &&& run.gates[3].name == orchestrator.checks()[0] + " passed"@
    &&& run.gates[3].required
    &&& run.gates[3].status is NotRun
}

/// What a run has behind it in each phase: as long as nothing failed in an attempt, its checks up to the
/// one at hand passed.
pub open spec fn on_track(orchestrator: Orchestrator, run: RunView) -> bool {
    let all = orchestrator.checks().len() as int;
    match run.phase {
        Phase::Check => {
            &&& orchestrator.ui_required() && !run.runtime ==> run.failures.len() > 0
            &&& run.failures.len() == 0 ==> last_passed(orchestrator, run.check_history, run.check)
        },
        Phase::Cleanup => run.failures.len() == 0 ==> last_passed(orchestrator, run.check_history, all),
        Phase::Review => last_passed(orchestrator, run.check_history, all) || untried(orchestrator, run),
        Phase::Ended => run.job.record.state is Complete ==> last_passed(orchestrator, run.check_history, all),
        _ => true,
    }
}

proof fn due_at_once(orchestrator: Orchestrator, from: int, runtime: bool)
    requires
        runtime || !orchestrator.ui_required(),
    ensures
        orchestrator.due(from, runtime) == from,
{
    if 0 <= from < orchestrator.checks().len() && !runtime {
        assert(orchestrator.checks().contains(orchestrator.checks()[from]));
    }
}

proof fn other_gates_stay(name: Seq<char>)
    ensures
        name + " passed"@ != "review approved"@,
        name + " passed"@ != "acceptance criteria verified"@,
{
    reveal_strlit(" passed");
    reveal_strlit("review approved");
    reveal_strlit("acceptance criteria verified");
    let whole = name + " passed"@;
    assert(whole[whole.len() - 3] == 's');
    let review = "review approved"@;
    assert(review[review.len() - 3] == 'v');
    let criteria = "acceptance criteria verified"@;
    assert(criteria[criteria.len() - 3] == 'i');
}

proof fn a_set_gate_is_the_named_one(gates: Seq<GateView>, name: Seq<char>)
    ensures
        0 <= jobs::gate_index(gates, name) <= gates.len(),
        jobs::gate_index(gates, name) < gates.len() ==> gates[jobs::gate_index(gates, name)].name == name,
    decreases gates.len(),
{
    if gates.len() > 0 && gates.first().name != name {
        a_set_gate_is_the_named_one(gates.drop_first(), name);
    }
}

proof fn conclusions_stay_on_track(orchestrator: Orchestrator, run: RunView, now: u64)
    requires
        !run.job.record.state.terminal(),
        last_passed(orchestrator, run.check_history, orchestrator.checks().len() as int) || untried(orchestrator, run),
    ensures
        on_track(orchestrator, orchestrator.concluded(run, now).run),
{
    if untried(orchestrator, run) {
        other_gates_stay(orchestrator.checks()[0]);
        a_set_gate_is_the_named_one(run.gates, "acceptance criteria verified"@);
        let after = orchestrator.concluded(run, now).run;
        assert(after.gates[3].required && after.gates[3].status is NotRun);
        assert(!jobs::gates_pass(after.gates));
    }
}

proof fn reviews_stay_on_track(orchestrator: Orchestrator, run: RunView, now: u64)
    requires
        !run.job.record.state.terminal(),
        last_passed(orchestrator, run.check_history, orchestrator.checks().len() as int) || untried(orchestrator, run),
    ensures
        on_track(orchestrator, orchestrator.reviewing(run, now).run),
{
    conclusions_stay_on_track(orchestrator, run, now);
}

proof fn closings_stay_on_track(orchestrator: Orchestrator, run: RunView, now: u64)
    requires
        !run.job.record.state.terminal(),
        run.failures.len() == 0 ==> last_passed(orchestrator, run.check_history, orchestrator.checks().len() as int),
    ensures
        on_track(orchestrator, orchestrator.attempt_closed(run, now).run),
{
    let held = RunView { job: run.job.evidenced(run.check_history, orchestrator.ui()), ..run }.gates_stored();
    if run.failures.len() == 0 {
        reviews_stay_on_track(orchestrator, held, now);
    }
}

proof fn checks_stay_on_track(orchestrator: Orchestrator, run: RunView, from: int, now: u64)
    requires
        !run.job.record.state.terminal(),
        0 <= from <= orchestrator.checks().len(),
        orchestrator.ui_required() && !run.runtime ==> run.failures.len() > 0,
        run.failures.len() == 0 ==> last_passed(orchestrator, run.check_history, from),
    ensures
        on_track(orchestrator, orchestrator.check_due(run, from, now).run),
{
    due_goes_on(orchestrator, from, run.runtime);
    if run.failures.len() == 0 {
        due_at_once(orchestrator, from, run.runtime);
    }
    if orchestrator.due(from, run.runtime) >= orchestrator.checks().len() && !run.runtime {
        closings_stay_on_track(orchestrator, run, now);
    }
}

proof fn patches_stay_on_track(orchestrator: Orchestrator, run: RunView, has_patch: bool, now: u64)
    requires
        !run.job.record.state.terminal(),
    ensures
        on_track(orchestrator, orchestrator.patch_known(run, has_patch, now).run),
{
    assert forall|next: RunView|
        !next.job.record.state.terminal() && next.failures.len() == 0 && !orchestrator.ui_required() implies on_track(
        orchestrator,
        (#[trigger] orchestrator.check_due(next, 0, now)).run,
    ) by {
        checks_stay_on_track(orchestrator, next, 0, now);
    }
}

proof fn run_checks_stay_on_track(
    orchestrator: Orchestrator,
    run: RunView,
    result: CommandResult,
    issues: Option<Seq<IssueView>>,
    now: u64,
)
    requires
        awaits(orchestrator, run, Happening::CheckDone(result, issues)),
        on_track(orchestrator, run),
    ensures
        on_track(orchestrator, orchestrator.check_run(run, result, issues, now).run),
{
    let category = orchestrator.checks()[run.check];
    let start = orchestrator::Verdict { gates: run.gates, failures: run.failures };
    let seen = if category == orchestrator.ui() {
        orchestrator::browser_judged(start, issues->0, now)
    } else {
        start
    };
    assert(seen.failures.len() >= run.failures.len());
    let history = run.check_history.push(
        CheckExecution { category: orchestrator.config.completion.required_checks@[run.check], result },
    );
    if run.failures.len() == 0 && result.succeeded() {
        let before = run.check_history;
        let count = run.check + 1;
        assert forall|i: int| 0 <= i < count implies (#[trigger] history[history.len() - count + i]).category@
            == orchestrator.checks()[i] && history[history.len() - count + i].result.succeeded() by {
            if i < run.check {
                assert(history[history.len() - count + i] == before[before.len() - run.check + i]);
            }
        }
    }
    let next = RunView {
        gates: jobs::gate_set(
            seen.gates,
            category + " passed"@,
            if result.succeeded() {
                jobs::GateStatus::Passed
            } else {
                jobs::GateStatus::Failed
            },
            result.evidence_text(),
            now,
        ),
        failures: if result.succeeded() {
            seen.failures
        } else {
            seen.failures.push("Required check `"@ + category + "` failed:\n"@ + result.evidence_text())
        },
        check_history: history,
        ..run
    };
    checks_stay_on_track(orchestrator, next, run.check + 1, now);
}

proof fn steps_stay_on_track(orchestrator: Orchestrator, run: RunView, happening: Happening, now: u64)
    requires
        awaits(orchestrator, run, happening),
        on_track(orchestrator, run),
    ensures
        on_track(orchestrator, stepped(orchestrator, run, happening, now).run),
{
    match happening {
        Happening::WorkerFailed(error) => {},
        Happening::WorkerDone(result) => {
            assert forall|next: RunView| !next.job.record.state.terminal() implies on_track(
                orchestrator,
                (#[trigger] orchestrator.patch_known(next, true, now)).run,
            ) by {
                patches_stay_on_track(orchestrator, next, true, now);
            }
        },
        Happening::WorktreeProbed(changes) => {
            patches_stay_on_track(orchestrator, run, changes, now);
        },
        Happening::RuntimeReady(pid) => {
            let next = RunView {
                job: run.job.noted("runtime"@, "Application ready with PID "@ + text::digits(pid as nat), now),
                runtime: true,
                ..run
            };
            checks_stay_on_track(orchestrator, next, 0, now);
        },
        Happening::RuntimeFailed(error) => {
            let evidence = "Application failed readiness: "@ + error;
            let next = RunView {
                gates: jobs::gate_set(
                    run.gates,
                    orchestrator.ui() + " passed"@,
                    jobs::GateStatus::Failed,
                    evidence,
                    now,
                ),
                failures: run.failures.push(evidence),
                ..run
            };
            checks_stay_on_track(orchestrator, next, 0, now);
        },
        Happening::CheckDone(result, issues) => {
            run_checks_stay_on_track(orchestrator, run, result, issues, now);
        },
        Happening::RuntimeStopped(error) => {
            assert forall|next: RunView|
                !next.job.record.state.terminal() && (next.failures.len() == 0 ==> last_passed(
                    orchestrator,
                    next.check_history,
                    orchestrator.checks().len() as int,
                )) implies on_track(orchestrator, (#[trigger] orchestrator.attempt_closed(next, now)).run) by {
                closings_stay_on_track(orchestrator, next, now);
            }
        },
        Happening::Reviewed(result) => {
            if untried(orchestrator, run) {
                other_gates_stay(orchestrator.checks()[0]);
                a_set_gate_is_the_named_one(run.gates, "review approved"@);
            }
            assert forall|next: RunView|
                !next.job.record.state.terminal() && (last_passed(
                    orchestrator,
                    next.check_history,
                    orchestrator.checks().len() as int,
                ) || untried(orchestrator, next)) implies on_track(
                orchestrator,
                (#[trigger] orchestrator.concluded(next, now)).run,
            ) by {
                conclusions_stay_on_track(orchestrator, next, now);
            }
        },
    }
}

proof fn beginnings_are_on_track(orchestrator: Orchestrator, job: JobView, now: u64)
    requires
        !(job.record.state is Complete),
    ensures
        on_track(orchestrator, orchestrator.begun(job, now).run),
{
    let run = orchestrator.fresh_run(job, orchestrator.first_gates(now)).gates_stored();
    if job.record.state is Approved && orchestrator.preflight_block() is None && orchestrator.max() < 1 {
        assert(untried(orchestrator, run));
        reviews_stay_on_track(orchestrator, run, now);
    }
}

proof fn runs_stay_on_track(orchestrator: Orchestrator, job: JobView, start: u64, turns: Seq<(Happening, u64)>)
    requires
        !(job.record.state is Complete),
        possible(orchestrator, job, start, turns),
    ensures
        on_track(orchestrator, ran(orchestrator, job, start, turns)),
        ran(orchestrator, job, start, turns).job.record.state is Complete ==> ran(orchestrator, job, start, turns).phase is Ended,
    decreases turns.len(),
{
    if turns.len() == 0 {
        beginnings_are_on_track(orchestrator, job, start);
    } else {
        runs_stay_on_track(orchestrator, job, start, turns.drop_last());
        let before = ran(orchestrator, job, start, turns.drop_last());
        steps_stay_on_track(orchestrator, before, turns.last().0, turns.last().1);
        stopped_runs_leave_ended_jobs(orchestrator, before, turns.last().0, turns.last().1);
    }
}

proof fn only_reviews_complete(orchestrator: Orchestrator, run: RunView, happening: Happening, now: u64)
    requires
        awaits(orchestrator, run, happening),
        orchestrator.config.completion.require_review,
        stepped(orchestrator, run, happening, now).run.job.record.state is Complete,
    ensures
        happening is Reviewed,
        happening->Reviewed_0.status is Approved,
{
}

/// A run that completes its job ran every required check in its last attempt, in the order of the
/// policy, and each succeeded; and where a review is required, the last thing that happened is that it
/// approved.
pub proof fn completed_runs_passed_their_last_attempt(
    orchestrator: Orchestrator,
    job: JobView,
    start: u64,
    turns: Seq<(Happening, u64)>,
)
    requires
        !(job.record.state is Complete),
        possible(orchestrator, job, start, turns),
        ran(orchestrator, job, start, turns).job.record.state is Complete,
    ensures
        last_passed(
            orchestrator,
            ran(orchestrator, job, start, turns).check_history,
            orchestrator.checks().len() as int,
        ),
        orchestrator.config.completion.require_review ==> turns.len() > 0 && turns.last().0 is Reviewed
            && turns.last().0->Reviewed_0.status is Approved,
{
    runs_stay_on_track(orchestrator, job, start, turns);
    if orchestrator.config.completion.require_review && turns.len() > 0 {
        let before = ran(orchestrator, job, start, turns.drop_last());
        only_reviews_complete(orchestrator, before, turns.last().0, turns.last().1);
    }
}

} // verus!
