//! What the steps of a run pass on.

use vstd::prelude::*;

use crate::browser::{BrowserIssueKind, IssueView};
use crate::command_runner::CommandResult;
use crate::jobs;
use crate::jobs::{GateView, JobView};
use crate::orchestrator;
use crate::orchestrator::{ActionView, Orchestrator, RunView};
use crate::review::ReviewResult;
use crate::text;
use crate::worker::WorkerResult;

verus! {

/// No work begins by a policy that requires no check, or one without an approved command, or browser
/// tests without an application to start: the job is blocked. By every other policy that allows an
/// attempt the worker is asked, in the first of them.
pub proof fn work_begins_only_by_a_whole_policy(orchestrator: Orchestrator, job: JobView, now: u64)
    requires
        job.record.state is Approved,
    ensures
        ({
            let step = orchestrator.begun(job, now);
            let checks = orchestrator.checks();
            let whole = checks.len() > 0 && (forall|i: int|
                0 <= i < checks.len() ==> orchestrator.config.commands@.contains_key(#[trigger] checks[i])) && (
            !checks.contains(orchestrator.config.ui.test_command@) || orchestrator.config.runtime is Some);
            &&& !whole ==> step.run.job.record.state is Blocked && step.outcome == Ok::<ActionView, Seq<char>>(ActionView::Stop)
            &&& whole && orchestrator.config.completion.max_attempts >= 1 ==> {
                &&& step.outcome == Ok::<ActionView, Seq<char>>(ActionView::RunWorker)
                &&& step.run.job.record.state is Working
                &&& step.run.attempt == 1
                &&& step.run.repair_evidence is None
                &&& step.run.job.specification == job.specification
                &&& step.run.job.request == job.request
                &&& step.run.job.criteria == job.criteria
                &&& step.run.job.record.approved_at == job.record.approved_at
            }
        }),
{
    unapproved_checks_are_found(orchestrator.checks(), orchestrator.config);
}

proof fn unapproved_checks_are_found(checks: Seq<Seq<char>>, config: crate::project_config::ProjectConfig)
    ensures
        orchestrator::first_unapproved(checks, config) is None <==> forall|i: int|
            0 <= i < checks.len() ==> config.commands@.contains_key(#[trigger] checks[i]),
    decreases checks.len(),
{
    if checks.len() > 0 {
        let rest = checks.drop_first();
        unapproved_checks_are_found(rest, config);
        assert(checks[0] == checks.first());
        assert forall|i: int| 0 <= i < rest.len() implies #[trigger] rest[i] == checks[i + 1] by {}
        if forall|i: int| 0 <= i < checks.len() ==> config.commands@.contains_key(#[trigger] checks[i]) {
            assert forall|i: int| 0 <= i < rest.len() implies config.commands@.contains_key(#[trigger] rest[i]) by {
                assert(config.commands@.contains_key(checks[i + 1]));
            }
        } else {
            let i = choose|i: int| 0 <= i < checks.len() && !config.commands@.contains_key(#[trigger] checks[i]);
            if i > 0 {
                assert(!config.commands@.contains_key(rest[i - 1]));
            }
        }
    }
}

/// Where the last check of an attempt fails, and neither the attempts are used up nor the same failure
/// came before, the worker is asked again, in the next attempt, with all that the check showed: its
/// category and both of its outputs.
pub proof fn failed_checks_go_back_to_the_worker(
    orchestrator: Orchestrator,
    run: RunView,
    result: CommandResult,
    now: u64,
)
    requires
        orchestrator.checks().len() > 0,
        run.check == orchestrator.checks().len() - 1,
        orchestrator.checks()[run.check] != orchestrator.ui(),
        !run.runtime,
        !result.succeeded(),
        run.previous_failure is None,
        run.attempt < orchestrator.max(),
    ensures
        ({
            let step = orchestrator.check_run(run, result, None, now);
            &&& step.outcome == Ok::<ActionView, Seq<char>>(ActionView::RunWorker)
            &&& step.run.attempt == run.attempt + 1
            &&& run.attempt >= 1 ==> step.run.job.record.state is Fixing
            &&& step.run.repair_evidence is Some
            &&& text::holds(step.run.repair_evidence->0, result.evidence_text())
            &&& text::holds(step.run.repair_evidence->0, result.stdout@)
            &&& text::holds(step.run.repair_evidence->0, result.stderr@)
            &&& text::holds(
                step.run.repair_evidence->0,
                "Required check `"@ + orchestrator.checks()[run.check] + "` failed:\n"@,
            )
            &&& step.run.job.specification == run.job.specification
            &&& step.run.job.request == run.job.request
        }),
{
    let step = orchestrator.check_run(run, result, None, now);
    let category = orchestrator.checks()[run.check];
    let label = "Required check `"@ + category + "` failed:\n"@;
    let failure = label + result.evidence_text();
    let failures = run.failures.push(failure);
    let evidence = text::joined(failures, "\n\n"@);
    assert(failures[failures.len() - 1] == failure);
    text::joined_texts_are_held(failures, "\n\n"@, failures.len() - 1);
    crate::command_runner::evidence_shows_both_outputs(result);
    text::additions_are_held(Seq::empty(), label, result.evidence_text(), label);
    assert(Seq::<char>::empty() + label + result.evidence_text() =~= failure);
    text::parts_are_held(Seq::empty(), label, result.evidence_text());
    text::holding_is_transitive(evidence, failure, result.evidence_text());
    text::holding_is_transitive(evidence, failure, label);
    text::holding_is_transitive(evidence, result.evidence_text(), result.stdout@);
    text::holding_is_transitive(evidence, result.evidence_text(), result.stderr@);
    assert(orchestrator.due(run.check + 1, false) == run.check + 1);
    assert(step.run.repair_evidence == Some(evidence));
}

/// What the worker is asked after an attempt that failed is exactly what failed in it, every failure of
/// it and nothing from before.
pub proof fn repairs_get_every_failure(orchestrator: Orchestrator, run: RunView, now: u64, i: int)
    requires
        0 <= i < run.failures.len(),
        run.previous_failure != Some(text::joined(run.failures, "\n\n"@)),
        run.attempt < orchestrator.max(),
    ensures
        ({
            let step = orchestrator.attempt_closed(run, now);
            &&& step.outcome == Ok::<ActionView, Seq<char>>(ActionView::RunWorker)
            &&& step.run.attempt == run.attempt + 1
            &&& step.run.repair_evidence is Some && text::holds(step.run.repair_evidence->0, run.failures[i])
            &&& run.failures.len() == 1 ==> step.run.repair_evidence == Some(run.failures[0])
            &&& step.run.job.specification == run.job.specification
        }),
{
    text::joined_texts_are_held(run.failures, "\n\n"@, i);
}

/// An attempt without a failure is not sent back: its job is reviewed where the policy asks for it, and
/// whoever reviews sees the request, the specification and every check.
pub proof fn passed_attempts_are_reviewed(orchestrator: Orchestrator, run: RunView, now: u64, i: int)
    requires
        run.failures.len() == 0,
        orchestrator.config.completion.require_review,
        orchestrator.reviewer,
    ensures
        ({
            let step = orchestrator.attempt_closed(run, now);
            &&& step.run.job.record.state is Reviewing
            &&& step.run.attempt == run.attempt
            &&& step.outcome matches Ok(ActionView::Review { prompt }) && {
                &&& text::holds(prompt, run.job.request)
                &&& text::holds(prompt, run.job.specification)
                &&& 0 <= i < run.check_history.len() ==> text::holds(prompt, run.check_history[i].result.evidence_text())
            }
        }),
{
    let step = orchestrator.attempt_closed(run, now);
    let request = run.job.request;
    let specification = run.job.specification;
    let prompt = crate::review::review_text(request, specification, run.check_history);
    let both = request + "\n\nSpecification:\n"@ + specification + "\n\nChecks:\n"@;
    crate::review::reviews_see_the_whole_job(request, specification, run.check_history, i);
    text::parts_are_held(Seq::empty(), request, "\n\nSpecification:\n"@ + specification + "\n\nChecks:\n"@);
    assert(Seq::<char>::empty() + request + ("\n\nSpecification:\n"@ + specification + "\n\nChecks:\n"@) =~= both);
    text::parts_are_held(request + "\n\nSpecification:\n"@, specification, "\n\nChecks:\n"@);
    text::holding_is_transitive(prompt, both, request);
    text::holding_is_transitive(prompt, both, specification);
    if 0 <= i < run.check_history.len() {
        let check = run.check_history[i];
        let label = "category: "@ + check.category@ + "\n"@;
        let shown = label + check.result.evidence_text();
        text::additions_are_held(Seq::empty(), label, check.result.evidence_text(), label);
        assert(Seq::<char>::empty() + label + check.result.evidence_text() =~= shown);
        text::holding_is_transitive(prompt, shown, check.result.evidence_text());
    }
}

/// Only a review that approves lets a job go on to its completion; every other verdict blocks it.
pub proof fn only_approving_reviews_let_jobs_pass(
    orchestrator: Orchestrator,
    run: RunView,
    result: ReviewResult,
    now: u64,
)
    ensures
        !(result.status is Approved) ==> orchestrator.review_known(run, result, now).run.job.record.state is Blocked,
        orchestrator.review_known(run, result, now).run.job.record.state is Complete ==> result.status is Approved,
{
}

/// What a worker did is kept: every file that it reports is among the changed files, with those from
/// before, each once; its summary and its session replace the earlier ones.
pub proof fn work_is_kept(orchestrator: Orchestrator, run: RunView, result: WorkerResult, now: u64, file: Seq<char>)
    ensures
        ({
            let after = orchestrator.worked(run, result, now).run;
            &&& after.changed_files.contains(file) <==> run.changed_files.contains(file) || text::texts(
                result.changed_files@,
            ).contains(file)
            &&& after.changed_files.no_duplicates()
            &&& after.final_summary == result.summary@
            &&& after.session_id == crate::model::view_of(result.session_id)
        }),
{
    let files = text::texts(result.changed_files@);
    let all = run.changed_files + files;
    crate::lists::sorted_lists_hold_the_same(all, file);
    assert(all.contains(file) <==> run.changed_files.contains(file) || files.contains(file)) by {
        if run.changed_files.contains(file) {
            assert(all[run.changed_files.index_of(file)] == file);
        }
        if files.contains(file) {
            assert(all[run.changed_files.len() + files.index_of(file)] == file);
        }
    }
}

/// A worker that reports no file, where none was reported before, is not believed to have worked: the
/// worktree is looked at, and without a change in it the job is blocked.
pub proof fn work_without_a_patch_blocks(orchestrator: Orchestrator, run: RunView, result: WorkerResult, now: u64)
    ensures
        run.changed_files.len() == 0 && result.changed_files@.len() == 0 ==> orchestrator.worked(run, result, now).outcome
            == Ok::<ActionView, Seq<char>>(ActionView::ProbeWorktree),
        orchestrator.patch_known(run, false, now).run.job.record.state is Blocked,
{
    let all = run.changed_files + text::texts(result.changed_files@);
    if run.changed_files.len() == 0 && result.changed_files@.len() == 0 {
        let files = crate::lists::sorted(all);
        assert(all.len() == 0);
        if files.len() > 0 {
            crate::lists::sorted_lists_hold_the_same(all, files[0]);
            assert(files.contains(files[0]));
        }
    }
}

/// The report of a job names what was done, who did it, in which attempt, and every file that changed.
pub proof fn reports_name_every_file(summary: Seq<char>, worker: Seq<char>, attempt: u32, files: Seq<Seq<char>>, i: int)
    ensures
        ({
            let report = orchestrator::report_text(summary, worker, attempt, files);
            &&& text::holds(report, "# Job complete\n\n"@ + summary)
            &&& text::holds(report, "\n\nWorker: "@ + worker)
            &&& text::holds(report, "\nAttempts: "@ + text::digits(attempt as nat))
            &&& 0 <= i < files.len() ==> text::holds(report, "- "@ + files[i])
        }),
{
    let a = "# Job complete\n\n"@ + summary;
    let b = a + "\n\nWorker: "@ + worker;
    let c = b + "\nAttempts: "@ + text::digits(attempt as nat);
    let list = text::bulleted(files);
    let d = c + "\nChanged files:\n"@ + list;
    let end = "\n\nAll configured required completion gates passed.\n"@;
    let report = d + end;
    text::additions_are_held(a, "\n\nWorker: "@, worker, a);
    text::additions_are_held(b, "\nAttempts: "@, text::digits(attempt as nat), b);
    text::additions_are_held(c, "\nChanged files:\n"@, list, c);
    text::parts_are_held(Seq::empty(), d, end);
    assert(Seq::<char>::empty() + d + end =~= report);
    text::holding_is_transitive(report, d, c);
    text::holding_is_transitive(report, c, "\nAttempts: "@ + text::digits(attempt as nat));
    text::holding_is_transitive(report, c, b);
    text::holding_is_transitive(report, b, "\n\nWorker: "@ + worker);
    text::holding_is_transitive(report, b, a);
    if 0 <= i < files.len() {
        text::bulleted_texts_are_held(files, i);
        text::holding_is_transitive(report, d, list);
        text::holding_is_transitive(report, list, "- "@ + files[i]);
    }
}

/// Each kind of issue of the browser has a gate, which fails exactly where an issue of that kind is not
/// ignored: one gate for errors on the console, one for exceptions of a page, one for crashes, one for
/// failed requests and one for the assertions.
pub proof fn browser_gates_fail_for_their_issues(
    verdict: orchestrator::Verdict,
    issues: Seq<IssueView>,
    now: u64,
)
    ensures
        ({
            let after = orchestrator::browser_judged(verdict, issues, now).gates;
            &&& gate_shows(after, "browser console errors"@, issues, BrowserIssueKind::ConsoleError)
            &&& gate_shows(after, "browser page exceptions"@, issues, BrowserIssueKind::PageException)
            &&& gate_shows(after, "browser page crashes"@, issues, BrowserIssueKind::PageCrash)
            &&& gate_shows(after, "browser failed requests"@, issues, BrowserIssueKind::FailedRequest)
            &&& gate_shows(after, "Playwright assertions"@, issues, BrowserIssueKind::AssertionFailure)
        }),
{
    reveal_strlit("browser console errors");
    reveal_strlit("browser page exceptions");
    reveal_strlit("browser page crashes");
    reveal_strlit("browser failed requests");
    reveal_strlit("Playwright assertions");
    let one = "browser console errors"@;
    let two = "browser page exceptions"@;
    let three = "browser page crashes"@;
    let four = "browser failed requests"@;
    let five = "Playwright assertions"@;
    assert(one.len() == 22 && two.len() == 23 && three.len() == 20 && four.len() == 23 && five.len() == 21);
    assert(two[8] == 'p' && four[8] == 'f');
    let a = orchestrator::judged(verdict, one, BrowserIssueKind::ConsoleError, issues, now);
    let b = orchestrator::judged(a, two, BrowserIssueKind::PageException, issues, now);
    let c = orchestrator::judged(b, three, BrowserIssueKind::PageCrash, issues, now);
    let d = orchestrator::judged(c, four, BrowserIssueKind::FailedRequest, issues, now);
    judged_gates_show(verdict, one, BrowserIssueKind::ConsoleError, issues, now);
    judged_gates_show(a, two, BrowserIssueKind::PageException, issues, now);
    judged_gates_show(b, three, BrowserIssueKind::PageCrash, issues, now);
    judged_gates_show(c, four, BrowserIssueKind::FailedRequest, issues, now);
    judged_gates_show(d, five, BrowserIssueKind::AssertionFailure, issues, now);
    judged_gates_stay(a, two, BrowserIssueKind::PageException, issues, now, one, BrowserIssueKind::ConsoleError);
    judged_gates_stay(b, three, BrowserIssueKind::PageCrash, issues, now, one, BrowserIssueKind::ConsoleError);
    judged_gates_stay(b, three, BrowserIssueKind::PageCrash, issues, now, two, BrowserIssueKind::PageException);
    judged_gates_stay(c, four, BrowserIssueKind::FailedRequest, issues, now, one, BrowserIssueKind::ConsoleError);
    judged_gates_stay(c, four, BrowserIssueKind::FailedRequest, issues, now, two, BrowserIssueKind::PageException);
    judged_gates_stay(c, four, BrowserIssueKind::FailedRequest, issues, now, three, BrowserIssueKind::PageCrash);
    judged_gates_stay(d, five, BrowserIssueKind::AssertionFailure, issues, now, one, BrowserIssueKind::ConsoleError);
    judged_gates_stay(d, five, BrowserIssueKind::AssertionFailure, issues, now, two, BrowserIssueKind::PageException);
    judged_gates_stay(d, five, BrowserIssueKind::AssertionFailure, issues, now, three, BrowserIssueKind::PageCrash);
    judged_gates_stay(d, five, BrowserIssueKind::AssertionFailure, issues, now, four, BrowserIssueKind::FailedRequest);
}

/// Whether a gate with a name, where there is one, failed where an issue of the kind is not ignored and
/// passed where each is.
pub open spec fn gate_shows(gates: Seq<GateView>, name: Seq<char>, issues: Seq<IssueView>, kind: BrowserIssueKind) -> bool {
    let i = jobs::gate_index(gates, name);
    i < gates.len() ==> {
        &&& gates[i].status is Failed <==> exists|k: int|
            0 <= k < issues.len() && (#[trigger] issues[k]).kind == kind && !issues[k].ignored
        &&& gates[i].status is Passed <==> forall|k: int|
            0 <= k < issues.len() ==> !((#[trigger] issues[k]).kind == kind && !issues[k].ignored)
    }
}

proof fn judged_gates_show(
    verdict: orchestrator::Verdict,
    name: Seq<char>,
    kind: BrowserIssueKind,
    issues: Seq<IssueView>,
    now: u64,
)
    ensures
        gate_shows(orchestrator::judged(verdict, name, kind, issues, now).gates, name, issues, kind),
{
    let after = orchestrator::judged(verdict, name, kind, issues, now).gates;
    let detail = orchestrator::browser_detail(issues, kind);
    let open = crate::browser::unignored_issues(issues, kind);
    let status = if open.len() > 0 {
        jobs::GateStatus::Failed
    } else {
        jobs::GateStatus::Passed
    };
    jobs::setting_a_gate_sets_that_gate(verdict.gates, name, status, detail, now, name);
    assert(open.len() > 0 <==> exists|k: int|
        0 <= k < issues.len() && (#[trigger] issues[k]).kind == kind && !issues[k].ignored) by {
        if open.len() > 0 {
            crate::browser::unignored_issues_are_all_of_the_kind(issues, kind, open[0]);
            assert(open.contains(open[0]));
            let k = issues.index_of(open[0]);
            assert(issues[k].kind == kind && !issues[k].ignored);
        }
        if exists|k: int| 0 <= k < issues.len() && (#[trigger] issues[k]).kind == kind && !issues[k].ignored {
            let k = choose|k: int| 0 <= k < issues.len() && (#[trigger] issues[k]).kind == kind && !issues[k].ignored;
            assert(issues.contains(issues[k]));
            crate::browser::unignored_issues_are_all_of_the_kind(issues, kind, issues[k]);
        }
    }
}

proof fn judged_gates_stay(
    verdict: orchestrator::Verdict,
    name: Seq<char>,
    kind: BrowserIssueKind,
    issues: Seq<IssueView>,
    now: u64,
    other: Seq<char>,
    other_kind: BrowserIssueKind,
)
    requires
        name != other,
        gate_shows(verdict.gates, other, issues, other_kind),
    ensures
        gate_shows(orchestrator::judged(verdict, name, kind, issues, now).gates, other, issues, other_kind),
{
    let after = orchestrator::judged(verdict, name, kind, issues, now).gates;
    let detail = orchestrator::browser_detail(issues, kind);
    let open = crate::browser::unignored_issues(issues, kind);
    let status = if open.len() > 0 {
        jobs::GateStatus::Failed
    } else {
        jobs::GateStatus::Passed
    };
    jobs::setting_a_gate_sets_that_gate(verdict.gates, name, status, detail, now, other);
    jobs::gate_index_found(verdict.gates, name);
    jobs::gate_index_found(verdict.gates, other);
}

/// A run with required browser tests begins with the gates of the browser, each required but for that of
/// errors on the console, which is required where the policy says so; without browser tests it has none of
/// them.
pub proof fn browser_tests_have_their_gates(orchestrator: Orchestrator, now: u64)
    ensures
        ({
            let gates = orchestrator.first_gates(now);
            let base = 3 + orchestrator.checks().len() + if orchestrator.config.completion.require_review {
                1int
            } else {
                0int
            };
            &&& orchestrator.checks().contains(orchestrator.config.ui.test_command@) ==> {
                &&& gates.len() == base + 5
                &&& gates[base].name == "browser console errors"@
                &&& gates[base].required == orchestrator.config.ui.fail_on_console_error
                &&& forall|i: int| base < i < base + 5 ==> (#[trigger] gates[i]).required
                &&& gates[base + 1].name == "browser page exceptions"@
                &&& gates[base + 2].name == "browser page crashes"@
                &&& gates[base + 3].name == "browser failed requests"@
                &&& gates[base + 4].name == "Playwright assertions"@
                &&& forall|i: int| base <= i < base + 5 ==> (#[trigger] gates[i]).status is NotRun
            }
            &&& !orchestrator.checks().contains(orchestrator.config.ui.test_command@) ==> gates.len() == base
        }),
{
}

/// A file belongs to the tests where its path, in whichever case, speaks of tests or specifications; and
/// a worker that changed such files is put on record with each of them.
pub proof fn changed_tests_are_put_on_record(files: Seq<Seq<char>>, file: Seq<char>)
    ensures
        orchestrator::test_files(files).contains(file) <==> files.contains(file) && (text::holds(text::lowered(file), "test"@)
            || text::holds(text::lowered(file), "spec"@)),
    decreases files.len(),
{
    if files.len() > 0 {
        let front = files.drop_last();
        let before = orchestrator::test_files(front);
        changed_tests_are_put_on_record(front, file);
        assert(files[files.len() - 1] == files.last());
        assert(files.contains(file) <==> front.contains(file) || files.last() == file) by {
            if front.contains(file) {
                assert(files[front.index_of(file)] == file);
            }
            if files.contains(file) && files.last() != file {
                assert(front[files.index_of(file)] == file);
            }
        }
        let more = before.push(files.last());
        assert(more.contains(file) <==> before.contains(file) || files.last() == file) by {
            assert(more[before.len() as int] == files.last());
            if before.contains(file) {
                assert(more[before.index_of(file)] == file);
            }
            if more.contains(file) && files.last() != file {
                assert(before[more.index_of(file)] == file);
            }
        }
    }
}

/// A check is run by the approved command of its own category, and by no other; one without an approved
/// command stops the run.
pub proof fn checks_run_their_own_command(orchestrator: Orchestrator, run: RunView, now: u64, i: int)
    requires
        0 <= i < orchestrator.checks().len(),
        orchestrator.checks()[i] != orchestrator.ui() || run.runtime,
    ensures
        ({
            let category = orchestrator.checks()[i];
            let step = orchestrator.check_due(run, i, now);
            &&& !orchestrator.config.commands@.contains_key(category) ==> step.outcome is Err
            &&& step.outcome matches Ok(action) ==> orchestrator.config.commands@.contains_key(category) && action
                == ActionView::RunCheck { category, argv: text::texts(orchestrator.config.commands@[category]@) }
        }),
{
}

/// The instructions of a project hold the whole of each file that it has.
pub proof fn instructions_hold_both_files(agents: Option<Seq<char>>, own: Option<Seq<char>>)
    ensures
        agents matches Some(first) ==> text::holds(
            orchestrator::instructions_text(agents, own),
            "--- AGENTS.md ---\n"@ + first,
        ),
        own matches Some(second) ==> text::holds(
            orchestrator::instructions_text(agents, own),
            "--- .bender/instructions.md ---\n"@ + second,
        ),
{
    let shown = orchestrator::instructions_text(agents, own);
    if let Some(first) = agents {
        let a = "--- AGENTS.md ---\n"@ + first;
        match own {
            Some(second) => {
                let b = "--- .bender/instructions.md ---\n"@ + second;
                text::additions_are_held(a, "\n\n"@, b, a);
            },
            None => {
                text::parts_are_held(Seq::empty(), a, Seq::empty());
                assert(Seq::<char>::empty() + a + Seq::<char>::empty() =~= shown);
            },
        }
    } else if let Some(second) = own {
        let b = "--- .bender/instructions.md ---\n"@ + second;
        text::parts_are_held(Seq::empty(), b, Seq::empty());
        assert(Seq::<char>::empty() + b + Seq::<char>::empty() =~= shown);
    }
}

} // verus!
