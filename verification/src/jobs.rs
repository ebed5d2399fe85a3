//! Jobs: their states, acceptance criteria, completion gates and history.

use vstd::prelude::*;

use crate::command_runner;
use crate::command_runner::CommandResult;
use crate::model;
use crate::paths;
use crate::redaction;
use crate::requirements::{ConversationView, RequirementsConversation};
use crate::text;
use crate::text_map::TextMap;

pub use crate::clock::now;
pub use crate::job_store::JobStore;
pub use crate::redaction::redact;

verus! {

// ---------------------------------------------------------------------------
// States
// ---------------------------------------------------------------------------

/// How far a job has come.
#[derive(Debug, Clone, Copy, PartialEq, Eq, Structural)]
pub enum JobState {
    Received,
    Clarifying,
    AwaitingApproval,
    Approved,
    Working,
    Checking,
    Fixing,
    Reviewing,
    AwaitingActionApproval,
    Complete,
    Blocked,
    Failed,
    Cancelled,
}

impl JobState {
    /// Whether a job in this state has come to its end.
    pub open spec fn terminal(self) -> bool {
        self is Complete || self is Blocked || self is Failed || self is Cancelled
    }

    /// Whether a job in this state has a worker, a check or a review at work on it.
    pub open spec fn in_flight(self) -> bool {
        self is Working || self is Checking || self is Fixing || self is Reviewing
    }

    /// Whether a job in this state can be tried again.
    pub open spec fn retriable(self) -> bool {
        self is Blocked || self is Failed
    }

    /// Whether a job may move from this state to another: from an end only by a retry.
    pub open spec fn may_become(self, next: JobState) -> bool {
        !self.terminal() || self == next || (next is Approved && self.retriable())
    }

    /// The name of the state.
    pub open spec fn title(self) -> Seq<char> {
        match self {
            JobState::Received => "Received"@,
            JobState::Clarifying => "Clarifying"@,
            JobState::AwaitingApproval => "AwaitingApproval"@,
            JobState::Approved => "Approved"@,
            JobState::Working => "Working"@,
            JobState::Checking => "Checking"@,
            JobState::Fixing => "Fixing"@,
            JobState::Reviewing => "Reviewing"@,
            JobState::AwaitingActionApproval => "AwaitingActionApproval"@,
            JobState::Complete => "Complete"@,
            JobState::Blocked => "Blocked"@,
            JobState::Failed => "Failed"@,
            JobState::Cancelled => "Cancelled"@,
        }
    }

    /// Whether a job in this state has come to its end.
    pub fn is_terminal(self) -> (answer: bool)
        ensures
            answer == self.terminal(),
    {
        matches!(self, JobState::Complete | JobState::Blocked | JobState::Failed | JobState::Cancelled)
    }

    /// Whether a job in this state has a worker, a check or a review at work on it.
    pub fn is_in_flight(self) -> (answer: bool)
        ensures
            answer == self.in_flight(),
    {
        matches!(self, JobState::Working | JobState::Checking | JobState::Fixing | JobState::Reviewing)
    }

    /// Whether a job in this state can be tried again.
    pub fn is_retriable(self) -> (answer: bool)
        ensures
            answer == self.retriable(),
    {
        matches!(self, JobState::Blocked | JobState::Failed)
    }

    /// The name of the state.
    pub fn name(self) -> (name: String)
        ensures
            name@ == self.title(),
    {
        match self {
            JobState::Received => "Received".to_string(),
            JobState::Clarifying => "Clarifying".to_string(),
            JobState::AwaitingApproval => "AwaitingApproval".to_string(),
            JobState::Approved => "Approved".to_string(),
            JobState::Working => "Working".to_string(),
            JobState::Checking => "Checking".to_string(),
            JobState::Fixing => "Fixing".to_string(),
            JobState::Reviewing => "Reviewing".to_string(),
            JobState::AwaitingActionApproval => "AwaitingActionApproval".to_string(),
            JobState::Complete => "Complete".to_string(),
            JobState::Blocked => "Blocked".to_string(),
            JobState::Failed => "Failed".to_string(),
            JobState::Cancelled => "Cancelled".to_string(),
        }
    }
}

// ---------------------------------------------------------------------------
// Acceptance criteria
// ---------------------------------------------------------------------------

/// Whether a criterion is met.
#[derive(Debug, Clone, Copy, PartialEq, Eq, Structural)]
pub enum CriterionStatus {
    Verified,
    Failed,
    Unverified,
}

impl Default for CriterionStatus {
    fn default() -> (status: Self)
        ensures
            status is Unverified,
    {
        CriterionStatus::Unverified
    }
}

/// A piece of evidence for or against a criterion.
#[derive(Debug)]
pub struct CriterionEvidence {
    pub evidence_type: String,
    pub reference: String,
    pub result: String,
}

/// What a job has to achieve.
#[derive(Debug)]
pub struct AcceptanceCriterion {
    pub id: String,
    pub description: String,
    pub required_evidence: Vec<String>,
    pub evidence: Vec<CriterionEvidence>,
    pub status: CriterionStatus,
    pub reviewer_findings: Vec<String>,
}

/// A check that was run, under its category.
#[derive(Debug)]
pub struct CheckExecution {
    pub category: String,
    pub result: CommandResult,
}

/// The content of a piece of evidence.
pub struct EvidenceView {
    pub evidence_type: Seq<char>,
    pub reference: Seq<char>,
    pub result: Seq<char>,
}

impl View for CriterionEvidence {
    type V = EvidenceView;

    open spec fn view(&self) -> EvidenceView {
        EvidenceView { evidence_type: self.evidence_type@, reference: self.reference@, result: self.result@ }
    }
}

/// The content of a criterion.
pub struct CriterionView {
    pub id: Seq<char>,
    pub description: Seq<char>,
    pub required_evidence: Seq<Seq<char>>,
    pub evidence: Seq<EvidenceView>,
    pub status: CriterionStatus,
    pub reviewer_findings: Seq<Seq<char>>,
}

impl View for AcceptanceCriterion {
    type V = CriterionView;

    open spec fn view(&self) -> CriterionView {
        CriterionView {
            id: self.id@,
            description: self.description@,
            required_evidence: text::texts(self.required_evidence@),
            evidence: model::views(self.evidence@),
            status: self.status,
            reviewer_findings: text::texts(self.reviewer_findings@),
        }
    }
}

impl Clone for CriterionEvidence {
    fn clone(&self) -> (copy: Self)
        ensures
            copy@ == self@,
    {
        CriterionEvidence {
            evidence_type: self.evidence_type.clone(),
            reference: self.reference.clone(),
            result: self.result.clone(),
        }
    }
}

fn copy_evidence(list: &Vec<CriterionEvidence>) -> (copy: Vec<CriterionEvidence>)
    ensures
        model::views(copy@) == model::views(list@),
{
    let mut copy: Vec<CriterionEvidence> = Vec::new();
    let mut at: usize = 0;
    while at < list.len()
        invariant
            at <= list@.len(),
            copy@.len() == at,
            forall|i: int| 0 <= i < at ==> (#[trigger] copy@[i])@ == list@[i]@,
        decreases list@.len() - at,
    {
        copy.push(list[at].clone());
        at = at + 1;
    }
    assert(model::views(copy@) =~= model::views(list@));
    copy
}

impl Clone for AcceptanceCriterion {
    fn clone(&self) -> (copy: Self)
        ensures
            copy@ == self@,
    {
        AcceptanceCriterion {
            id: self.id.clone(),
            description: self.description.clone(),
            required_evidence: model::copy_texts(&self.required_evidence),
            evidence: copy_evidence(&self.evidence),
            status: self.status,
            reviewer_findings: model::copy_texts(&self.reviewer_findings),
        }
    }
}

/// A copy of a list of criteria.
pub fn copy_criteria(list: &Vec<AcceptanceCriterion>) -> (copy: Vec<AcceptanceCriterion>)
    ensures
        model::views(copy@) == model::views(list@),
{
    let mut copy: Vec<AcceptanceCriterion> = Vec::new();
    let mut at: usize = 0;
    while at < list.len()
        invariant
            at <= list@.len(),
            copy@.len() == at,
            forall|i: int| 0 <= i < at ==> (#[trigger] copy@[i])@ == list@[i]@,
        decreases list@.len() - at,
    {
        copy.push(list[at].clone());
        at = at + 1;
    }
    assert(model::views(copy@) =~= model::views(list@));
    copy
}

/// A criterion of which nothing is known yet.
pub open spec fn fresh_criterion(id: Seq<char>, description: Seq<char>, required_evidence: Seq<Seq<char>>) -> CriterionView {
    CriterionView {
        id,
        description,
        required_evidence,
        evidence: Seq::empty(),
        status: CriterionStatus::Unverified,
        reviewer_findings: Seq::empty(),
    }
}

impl AcceptanceCriterion {
    /// A criterion of which nothing is known yet.
    pub fn new(id: &str, description: &str, required_evidence: Vec<String>) -> (criterion: Self)
        ensures
            criterion@ == fresh_criterion(id@, description@, text::texts(required_evidence@)),
    {
        let criterion = AcceptanceCriterion {
            id: id.to_string(),
            description: description.to_string(),
            required_evidence,
            evidence: Vec::new(),
            status: CriterionStatus::Unverified,
            reviewer_findings: Vec::new(),
        };
        assert(criterion@.evidence =~= Seq::empty());
        assert(criterion@.reviewer_findings =~= Seq::empty());
        criterion
    }
}

/// Whether some evidence of the type says that it passed.
pub open spec fn backed(evidence: Seq<EvidenceView>, evidence_type: Seq<char>) -> bool {
    exists|i: int| 0 <= i < evidence.len() && (#[trigger] evidence[i]).evidence_type == evidence_type
        && evidence[i].result == "passed"@
}

/// Whether each required type of evidence has some that passed.
pub open spec fn all_backed(required: Seq<Seq<char>>, evidence: Seq<EvidenceView>) -> bool {
    forall|i: int| 0 <= i < required.len() ==> backed(evidence, #[trigger] required[i])
}

/// Whether some evidence says that it failed.
pub open spec fn any_failed(evidence: Seq<EvidenceView>) -> bool {
    exists|i: int| 0 <= i < evidence.len() && (#[trigger] evidence[i]).result == "failed"@
}

fn is_backed(evidence: &Vec<CriterionEvidence>, evidence_type: &str) -> (answer: bool)
    ensures
        answer == backed(model::views(evidence@), evidence_type@),
{
    let ghost all = model::views(evidence@);
    let mut at: usize = 0;
    while at < evidence.len()
        invariant
            at <= evidence@.len(),
            all == model::views(evidence@),
            forall|i: int| 0 <= i < at ==> !((#[trigger] all[i]).evidence_type == evidence_type@ && all[i].result == "passed"@),
        decreases evidence@.len() - at,
    {
        assert(all[at as int] == evidence@[at as int]@);
        if text::same(evidence[at].evidence_type.as_str(), evidence_type) && text::same(
            evidence[at].result.as_str(),
            "passed",
        ) {
            return true;
        }
        at = at + 1;
    }
    false
}

fn is_all_backed(required: &Vec<String>, evidence: &Vec<CriterionEvidence>) -> (answer: bool)
    ensures
        answer == all_backed(text::texts(required@), model::views(evidence@)),
{
    let ghost all = text::texts(required@);
    let mut at: usize = 0;
    while at < required.len()
        invariant
            at <= required@.len(),
            all == text::texts(required@),
            forall|i: int| 0 <= i < at ==> backed(model::views(evidence@), #[trigger] all[i]),
        decreases required@.len() - at,
    {
        assert(all[at as int] == required@[at as int]@);
        if !is_backed(evidence, required[at].as_str()) {
            return false;
        }
        at = at + 1;
    }
    true
}

fn has_failed(evidence: &Vec<CriterionEvidence>) -> (answer: bool)
    ensures
        answer == any_failed(model::views(evidence@)),
{
    let ghost all = model::views(evidence@);
    let mut at: usize = 0;
    while at < evidence.len()
        invariant
            at <= evidence@.len(),
            all == model::views(evidence@),
            forall|i: int| 0 <= i < at ==> (#[trigger] all[i]).result != "failed"@,
        decreases evidence@.len() - at,
    {
        assert(all[at as int] == evidence@[at as int]@);
        if text::same(evidence[at].result.as_str(), "failed") {
            return true;
        }
        at = at + 1;
    }
    false
}

/// Whether a check is evidence of the required type. The type names the category of the check,
/// but for a few names of its own.
pub open spec fn bears_on(required: Seq<char>, category: Seq<char>, ui_category: Seq<char>) -> bool {
    if required == "unit_test"@ {
        category == "unit"@
    } else if required == "browser_test"@ {
        category == ui_category
    } else if required == "required_check"@ {
        true
    } else if required == "manual"@ {
        false
    } else {
        category == required
    }
}

/// What a check shows, as evidence of the required type.
pub open spec fn check_evidence(required: Seq<char>, check: CheckExecution) -> EvidenceView {
    EvidenceView {
        evidence_type: required,
        reference: check.category@ + ": "@ + command_runner::shown_argv(text::texts(check.result.argv@)),
        result: if check.result.succeeded() {
            "passed"@
        } else {
            "failed"@
        },
    }
}

/// What the checks show, as evidence of one required type.
pub open spec fn evidence_of(required: Seq<char>, checks: Seq<CheckExecution>, ui_category: Seq<char>) -> Seq<EvidenceView>
    decreases checks.len(),
{
    if checks.len() == 0 {
        Seq::empty()
    } else {
        let before = evidence_of(required, checks.drop_last(), ui_category);
        if bears_on(required, checks.last().category@, ui_category) {
            before.push(check_evidence(required, checks.last()))
        } else {
            before
        }
    }
}

/// What the checks show, as evidence of each required type.
pub open spec fn gathered(required: Seq<Seq<char>>, checks: Seq<CheckExecution>, ui_category: Seq<char>) -> Seq<EvidenceView>
    decreases required.len(),
{
    if required.len() == 0 {
        Seq::empty()
    } else {
        gathered(required.drop_last(), checks, ui_category) + evidence_of(required.last(), checks, ui_category)
    }
}

/// The evidence that a person gave.
pub open spec fn manual_only(evidence: Seq<EvidenceView>) -> Seq<EvidenceView>
    decreases evidence.len(),
{
    if evidence.len() == 0 {
        Seq::empty()
    } else if evidence.last().evidence_type == "manual"@ {
        manual_only(evidence.drop_last()).push(evidence.last())
    } else {
        manual_only(evidence.drop_last())
    }
}

/// Whether a criterion is met by the evidence: it needs some, and each required type passed.
pub open spec fn judged(required: Seq<Seq<char>>, evidence: Seq<EvidenceView>) -> CriterionStatus {
    if required.len() > 0 && all_backed(required, evidence) {
        CriterionStatus::Verified
    } else if any_failed(evidence) {
        CriterionStatus::Failed
    } else {
        CriterionStatus::Unverified
    }
}

/// A criterion after the checks: manual evidence stays, that of earlier checks is replaced.
pub open spec fn checked(criterion: CriterionView, checks: Seq<CheckExecution>, ui_category: Seq<char>) -> CriterionView {
    let evidence = manual_only(criterion.evidence) + gathered(criterion.required_evidence, checks, ui_category);
    CriterionView { evidence, status: judged(criterion.required_evidence, evidence), ..criterion }
}

/// Whether there are criteria and all are met.
pub open spec fn all_verified(criteria: Seq<CriterionView>) -> bool {
    criteria.len() > 0 && forall|i: int| 0 <= i < criteria.len() ==> (#[trigger] criteria[i]).status is Verified
}

fn applies(required: &str, category: &str, ui_category: &str) -> (answer: bool)
    ensures
        answer == bears_on(required@, category@, ui_category@),
{
    if text::same(required, "unit_test") {
        text::same(category, "unit")
    } else if text::same(required, "browser_test") {
        text::same(category, ui_category)
    } else if text::same(required, "required_check") {
        true
    } else if text::same(required, "manual") {
        false
    } else {
        text::same(category, required)
    }
}

fn evidence_from(required: &str, check: &CheckExecution) -> (evidence: CriterionEvidence)
    ensures
        evidence@ == check_evidence(required@, *check),
{
    CriterionEvidence {
        evidence_type: required.to_string(),
        reference: check.category.clone().concat(": ").concat(
            command_runner::display_argv(check.result.argv.as_slice()).as_str(),
        ),
        result: if check.result.success() {
            "passed".to_string()
        } else {
            "failed".to_string()
        },
    }
}

fn keep_manual(evidence: &Vec<CriterionEvidence>) -> (kept: Vec<CriterionEvidence>)
    ensures
        model::views(kept@) == manual_only(model::views(evidence@)),
{
    let mut kept: Vec<CriterionEvidence> = Vec::new();
    let ghost all = model::views(evidence@);
    let mut at: usize = 0;
    assert(model::views(kept@) =~= manual_only(all.take(0)));
    while at < evidence.len()
        invariant
            at <= evidence@.len(),
            all == model::views(evidence@),
            model::views(kept@) == manual_only(all.take(at as int)),
        decreases evidence@.len() - at,
    {
        proof {
            let next = all.take(at + 1);
            assert(next.drop_last() =~= all.take(at as int));
            assert(next.last() == evidence@[at as int]@);
        }
        let ghost before = kept@;
        if text::same(evidence[at].evidence_type.as_str(), "manual") {
            kept.push(evidence[at].clone());
            assert(model::views(kept@) =~= model::views(before).push(evidence@[at as int]@));
        }
        at = at + 1;
    }
    assert(all.take(at as int) =~= all);
    kept
}

fn add_evidence(kept: &mut Vec<CriterionEvidence>, required: &str, checks: &Vec<CheckExecution>, ui_category: &str)
    ensures
        model::views(final(kept)@) == model::views(old(kept)@) + evidence_of(required@, checks@, ui_category@),
{
    let ghost start = model::views(kept@);
    let mut at: usize = 0;
    assert(checks@.take(0) =~= Seq::<CheckExecution>::empty());
    assert(start + evidence_of(required@, checks@.take(0), ui_category@) =~= start);
    while at < checks.len()
        invariant
            at <= checks@.len(),
            model::views(kept@) == start + evidence_of(required@, checks@.take(at as int), ui_category@),
        decreases checks@.len() - at,
    {
        let ghost next = checks@.take(at + 1);
        assert(next.drop_last() =~= checks@.take(at as int));
        assert(next.last() == checks@[at as int]);
        let ghost before = kept@;
        if applies(required, checks[at].category.as_str(), ui_category) {
            let evidence = evidence_from(required, &checks[at]);
            kept.push(evidence);
            assert(model::views(kept@) =~= model::views(before).push(check_evidence(required@, checks@[at as int])));
            assert(model::views(kept@) =~= start + evidence_of(required@, next, ui_category@));
        }
        at = at + 1;
    }
    assert(checks@.take(at as int) =~= checks@);
}

fn check_criterion(criterion: &mut AcceptanceCriterion, checks: &Vec<CheckExecution>, ui_category: &str)
    ensures
        final(criterion)@ == checked(old(criterion)@, checks@, ui_category@),
{
    let mut evidence = keep_manual(&criterion.evidence);
    let ghost required = text::texts(criterion.required_evidence@);
    let ghost manual = model::views(evidence@);
    let mut at: usize = 0;
    assert(required.take(0) =~= Seq::<Seq<char>>::empty());
    assert(manual + gathered(required.take(0), checks@, ui_category@) =~= manual);
    while at < criterion.required_evidence.len()
        invariant
            at <= criterion.required_evidence@.len(),
            *criterion == *old(criterion),
            required == text::texts(criterion.required_evidence@),
            model::views(evidence@) == manual + gathered(required.take(at as int), checks@, ui_category@),
        decreases criterion.required_evidence@.len() - at,
    {
        let ghost next = required.take(at + 1);
        assert(next.drop_last() =~= required.take(at as int));
        assert(next.last() == criterion.required_evidence@[at as int]@);
        add_evidence(&mut evidence, criterion.required_evidence[at].as_str(), checks, ui_category);
        assert(model::views(evidence@) =~= manual + gathered(next, checks@, ui_category@));
        at = at + 1;
    }
    assert(required.take(at as int) =~= required);
    assert(required.len() == criterion.required_evidence@.len());
    let status = if criterion.required_evidence.len() > 0 && is_all_backed(&criterion.required_evidence, &evidence) {
        CriterionStatus::Verified
    } else if has_failed(&evidence) {
        CriterionStatus::Failed
    } else {
        CriterionStatus::Unverified
    };
    criterion.evidence = evidence;
    criterion.status = status;
}

// ---------------------------------------------------------------------------
// Completion gates
// ---------------------------------------------------------------------------

/// What a gate shows.
#[derive(Debug, Clone, Copy, PartialEq, Eq, Structural)]
pub enum GateStatus {
    Passed,
    Failed,
    NotRun,
    Skipped,
}

/// One condition of completion.
#[derive(Debug)]
pub struct CompletionGate {
    pub name: String,
    pub required: bool,
    pub status: GateStatus,
    pub evidence: String,
    pub explanation: String,
    pub updated_at: u64,
}

/// The content of a gate.
pub struct GateView {
    pub name: Seq<char>,
    pub required: bool,
    pub status: GateStatus,
    pub evidence: Seq<char>,
    pub explanation: Seq<char>,
    pub updated_at: u64,
}

impl View for CompletionGate {
    type V = GateView;

    open spec fn view(&self) -> GateView {
        GateView {
            name: self.name@,
            required: self.required,
            status: self.status,
            evidence: self.evidence@,
            explanation: self.explanation@,
            updated_at: self.updated_at,
        }
    }
}

impl Clone for CompletionGate {
    fn clone(&self) -> (copy: Self)
        ensures
            copy@ == self@,
    {
        CompletionGate {
            name: self.name.clone(),
            required: self.required,
            status: self.status,
            evidence: self.evidence.clone(),
            explanation: self.explanation.clone(),
            updated_at: self.updated_at,
        }
    }
}

/// A copy of a list of gates.
pub fn copy_gates(list: &Vec<CompletionGate>) -> (copy: Vec<CompletionGate>)
    ensures
        model::views(copy@) == model::views(list@),
{
    let mut copy: Vec<CompletionGate> = Vec::new();
    let mut at: usize = 0;
    while at < list.len()
        invariant
            at <= list@.len(),
            copy@.len() == at,
            forall|i: int| 0 <= i < at ==> (#[trigger] copy@[i])@ == list@[i]@,
        decreases list@.len() - at,
    {
        copy.push(list[at].clone());
        at = at + 1;
    }
    assert(model::views(copy@) =~= model::views(list@));
    copy
}

/// A gate for which nothing was recorded yet.
pub open spec fn fresh_gate(name: Seq<char>, required: bool, status: GateStatus, now: u64) -> GateView {
    GateView { name, required, status, evidence: Seq::empty(), explanation: Seq::empty(), updated_at: now }
}

/// A gate for which nothing was recorded yet.
pub fn gate(name: &str, required: bool, status: GateStatus, now: u64) -> (gate: CompletionGate)
    ensures
        gate@ == fresh_gate(name@, required, status, now),
{
    CompletionGate {
        name: name.to_string(),
        required,
        status,
        evidence: String::new(),
        explanation: String::new(),
        updated_at: now,
    }
}

/// The gates of a job whose specification was approved and for which nothing was done yet.
pub open spec fn initial_gates(required_checks: Seq<Seq<char>>, require_review: bool, now: u64) -> Seq<GateView> {
    let checks = Seq::new(
        required_checks.len(),
        |i: int| fresh_gate(required_checks[i] + " passed"@, true, GateStatus::NotRun, now),
    );
    seq![
        fresh_gate("specification approved"@, true, GateStatus::Passed, now),
        fresh_gate("patch produced"@, true, GateStatus::NotRun, now),
        fresh_gate("acceptance criteria verified"@, true, GateStatus::NotRun, now),
    ] + checks + if require_review {
        seq![fresh_gate("review approved"@, true, GateStatus::NotRun, now)]
    } else {
        Seq::empty()
    }
}

/// The gates of a job whose specification was approved and for which nothing was done yet.
pub fn default_gates(required_checks: &Vec<String>, require_review: bool, now: u64) -> (gates: Vec<CompletionGate>)
    ensures
        model::views(gates@) == initial_gates(text::texts(required_checks@), require_review, now),
{
    let mut gates: Vec<CompletionGate> = Vec::new();
    gates.push(gate("specification approved", true, GateStatus::Passed, now));
    gates.push(gate("patch produced", true, GateStatus::NotRun, now));
    gates.push(gate("acceptance criteria verified", true, GateStatus::NotRun, now));
    let ghost wanted = initial_gates(text::texts(required_checks@), require_review, now);
    let ghost names = text::texts(required_checks@);
    let mut at: usize = 0;
    while at < required_checks.len()
        invariant
            at <= required_checks@.len(),
            names == text::texts(required_checks@),
            wanted == initial_gates(names, require_review, now),
            gates@.len() == 3 + at,
            forall|i: int| 0 <= i < gates@.len() ==> (#[trigger] gates@[i])@ == wanted[i],
        decreases required_checks@.len() - at,
    {
        let name = required_checks[at].clone().concat(" passed");
        assert(names[at as int] == required_checks@[at as int]@);
        gates.push(gate(name.as_str(), true, GateStatus::NotRun, now));
        at = at + 1;
    }
    if require_review {
        gates.push(gate("review approved", true, GateStatus::NotRun, now));
    }
    assert(model::views(gates@) =~= wanted);
    gates
}

/// Whether some gate is required, and every required one passed.
pub open spec fn gates_pass(gates: Seq<GateView>) -> bool {
    &&& exists|i: int| 0 <= i < gates.len() && (#[trigger] gates[i]).required
    &&& forall|i: int| 0 <= i < gates.len() && (#[trigger] gates[i]).required ==> gates[i].status is Passed
}

/// The status that a list of gates gives a name: that of the last gate with the name.
pub open spec fn statuses(gates: Seq<GateView>) -> Map<Seq<char>, GateStatus>
    decreases gates.len(),
{
    if gates.len() == 0 {
        Map::empty()
    } else {
        statuses(gates.drop_last()).insert(gates.last().name, gates.last().status)
    }
}

/// The status of each gate, by its name.
pub fn gate_map(gates: &Vec<CompletionGate>) -> (map: TextMap<GateStatus>)
    ensures
        map.wf(),
        map@ == statuses(model::views(gates@)),
{
    let mut map: TextMap<GateStatus> = TextMap::new();
    let ghost all = model::views(gates@);
    let mut at: usize = 0;
    assert(all.take(0) =~= Seq::<GateView>::empty());
    while at < gates.len()
        invariant
            at <= gates@.len(),
            all == model::views(gates@),
            map.wf(),
            map@ == statuses(all.take(at as int)),
        decreases gates@.len() - at,
    {
        proof {
            let next = all.take(at + 1);
            assert(next.drop_last() =~= all.take(at as int));
            assert(next.last() == gates@[at as int]@);
        }
        map.insert(gates[at].name.clone(), gates[at].status);
        at = at + 1;
    }
    assert(all.take(at as int) =~= all);
    map
}

/// The position of the first gate with the name, or the number of gates where there is none.
pub open spec fn gate_index(gates: Seq<GateView>, name: Seq<char>) -> int
    decreases gates.len(),
{
    if gates.len() == 0 || gates.first().name == name {
        0
    } else {
        1 + gate_index(gates.drop_first(), name)
    }
}

/// The gates after one of them got a new status and new evidence.
pub open spec fn gate_set(gates: Seq<GateView>, name: Seq<char>, status: GateStatus, evidence: Seq<char>, now: u64) -> Seq<
    GateView,
> {
    let i = gate_index(gates, name);
    if i < gates.len() {
        gates.update(i, (GateView { status, evidence, updated_at: now, ..gates[i] }))
    } else {
        gates
    }
}

/// The first gate with a name is the one that `gate_index` finds.
pub proof fn gate_index_is(gates: Seq<GateView>, name: Seq<char>, k: int)
    requires
        0 <= k <= gates.len(),
        forall|i: int| 0 <= i < k ==> (#[trigger] gates[i]).name != name,
        k < gates.len() ==> gates[k].name == name,
    ensures
        gate_index(gates, name) == k,
    decreases k,
{
    if k > 0 {
        assert(gates[0].name != name);
        let rest = gates.drop_first();
        assert forall|i: int| 0 <= i < k - 1 implies (#[trigger] rest[i]).name != name by {
            assert(rest[i] == gates[i + 1]);
        }
        gate_index_is(rest, name, k - 1);
    }
}

/// The position of the first gate with the name, or the number of gates where there is none.
pub fn find_gate(gates: &Vec<CompletionGate>, name: &str) -> (at: usize)
    ensures
        at == gate_index(model::views(gates@), name@),
        at <= gates@.len(),
{
    let ghost all = model::views(gates@);
    let mut at: usize = 0;
    while at < gates.len() && !text::same(gates[at].name.as_str(), name)
        invariant
            at <= gates@.len(),
            all == model::views(gates@),
            forall|i: int| 0 <= i < at ==> (#[trigger] all[i]).name != name@,
        decreases gates@.len() - at,
    {
        assert(all[at as int] == gates@[at as int]@);
        at = at + 1;
    }
    proof {
        if at < gates@.len() {
            assert(all[at as int] == gates@[at as int]@);
        }
        gate_index_is(all, name@, at as int);
    }
    at
}

/// Gives a gate, found by its name, a new status and new evidence, where there is one.
pub fn update_gate(gates: &mut Vec<CompletionGate>, name: &str, status: GateStatus, evidence: String, now: u64)
    ensures
        model::views(final(gates)@) == gate_set(model::views(old(gates)@), name@, status, evidence@, now),
{
    let ghost before = model::views(gates@);
    let at = find_gate(gates, name);
    if at < gates.len() {
        gates[at].status = status;
        gates[at].evidence = evidence;
        gates[at].updated_at = now;
    }
    assert(model::views(gates@) =~= gate_set(before, name@, status, evidence@, now));
}

// ---------------------------------------------------------------------------
// Records
// ---------------------------------------------------------------------------

/// What a list of jobs shows of a job.
#[derive(Debug)]
pub struct JobRecord {
    pub id: String,
    pub state: JobState,
    pub created_at: u64,
    pub updated_at: u64,
    pub sender: String,
    pub conversation_id: Option<String>,
    pub approved_at: Option<u64>,
    pub current_worker: Option<String>,
    pub attempt: u32,
    pub interrupted: bool,
    pub message: String,
}

/// The content of a record.
pub struct RecordView {
    pub id: Seq<char>,
    pub state: JobState,
    pub created_at: u64,
    pub updated_at: u64,
    pub sender: Seq<char>,
    pub conversation_id: Option<Seq<char>>,
    pub approved_at: Option<u64>,
    pub current_worker: Option<Seq<char>>,
    pub attempt: u32,
    pub interrupted: bool,
    pub message: Seq<char>,
}

impl View for JobRecord {
    type V = RecordView;

    open spec fn view(&self) -> RecordView {
        RecordView {
            id: self.id@,
            state: self.state,
            created_at: self.created_at,
            updated_at: self.updated_at,
            sender: self.sender@,
            conversation_id: model::view_of(self.conversation_id),
            approved_at: self.approved_at,
            current_worker: model::view_of(self.current_worker),
            attempt: self.attempt,
            interrupted: self.interrupted,
            message: self.message@,
        }
    }
}

impl Clone for JobRecord {
    fn clone(&self) -> (copy: Self)
        ensures
            copy@ == self@,
    {
        JobRecord {
            id: self.id.clone(),
            state: self.state,
            created_at: self.created_at,
            updated_at: self.updated_at,
            sender: self.sender.clone(),
            conversation_id: self.conversation_id.clone(),
            approved_at: self.approved_at,
            current_worker: self.current_worker.clone(),
            attempt: self.attempt,
            interrupted: self.interrupted,
            message: self.message.clone(),
        }
    }
}

/// Something that happened to a job.
#[derive(Debug)]
pub struct JobEvent {
    pub timestamp: u64,
    pub kind: String,
    pub message: String,
}

/// The content of an event.
pub struct EventView {
    pub timestamp: u64,
    pub kind: Seq<char>,
    pub message: Seq<char>,
}

impl View for JobEvent {
    type V = EventView;

    open spec fn view(&self) -> EventView {
        EventView { timestamp: self.timestamp, kind: self.kind@, message: self.message@ }
    }
}

/// A message about a job, to or from its sender.
#[derive(Debug)]
pub struct ConversationLine {
    pub timestamp: u64,
    pub conversation_id: String,
    pub sender: String,
    pub direction: String,
    pub content: String,
}

/// The content of a message.
pub struct LineView {
    pub timestamp: u64,
    pub conversation_id: Seq<char>,
    pub sender: Seq<char>,
    pub direction: Seq<char>,
    pub content: Seq<char>,
}

impl View for ConversationLine {
    type V = LineView;

    open spec fn view(&self) -> LineView {
        LineView {
            timestamp: self.timestamp,
            conversation_id: self.conversation_id@,
            sender: self.sender@,
            direction: self.direction@,
            content: self.content@,
        }
    }
}

// ---------------------------------------------------------------------------
// Jobs
// ---------------------------------------------------------------------------

/// A job: where it is stored, its record and what is stored beside it.
#[derive(Debug)]
pub struct Job {
    pub root: String,
    pub record: JobRecord,
    pub request: String,
    pub specification: String,
    pub requirements: Option<RequirementsConversation>,
    pub criteria: Vec<AcceptanceCriterion>,
    pub conversation: Vec<ConversationLine>,
    pub events: Vec<JobEvent>,
    pub gates: Vec<CompletionGate>,
    pub final_report: String,
}

/// The content of a job.
pub struct JobView {
    pub root: Seq<char>,
    pub record: RecordView,
    pub request: Seq<char>,
    pub specification: Seq<char>,
    pub requirements: Option<ConversationView>,
    pub criteria: Seq<CriterionView>,
    pub conversation: Seq<LineView>,
    pub events: Seq<EventView>,
    pub gates: Seq<GateView>,
    pub final_report: Seq<char>,
}

impl View for Job {
    type V = JobView;

    open spec fn view(&self) -> JobView {
        JobView {
            root: self.root@,
            record: self.record@,
            request: self.request@,
            specification: self.specification@,
            requirements: model::view_of(self.requirements),
            criteria: model::views(self.criteria@),
            conversation: model::views(self.conversation@),
            events: model::views(self.events@),
            gates: model::views(self.gates@),
            final_report: self.final_report@,
        }
    }
}

/// Why something cannot be done to a job.
#[derive(Debug)]
pub enum JobError {
    InvalidId,
    Unreadable(String),
    InvalidFile(String),
    NotAwaitingApproval,
    Terminal(String),
    NotRetriable,
    UnknownCriterion(String),
    NotApproved,
    Interrupted,
    GatesNotPassed,
    CriteriaUnverified,
    NoOpenQuestion,
}

impl JobError {
    /// The message of the error.
    pub open spec fn text(self) -> Seq<char> {
        match self {
            JobError::InvalidId => "invalid job id"@,
            JobError::Unreadable(path) => "could not read "@ + path@,
            JobError::InvalidFile(path) => "invalid "@ + path@,
            JobError::NotAwaitingApproval => "job is not awaiting approval"@,
            JobError::Terminal(id) => "cannot transition terminal job "@ + id@,
            JobError::NotRetriable => "only blocked or failed jobs can be retried"@,
            JobError::UnknownCriterion(id) => "unknown acceptance criterion "@ + id@,
            JobError::NotApproved => "the specification has not been explicitly approved"@,
            JobError::Interrupted => "an interrupted job must be explicitly retried before completion"@,
            JobError::GatesNotPassed => "required completion gates have not all passed"@,
            JobError::CriteriaUnverified => "acceptance criteria are missing or unverified"@,
            JobError::NoOpenQuestion => "no unanswered clarification question remains"@,
        }
    }

    /// The message of the error.
    pub fn message(&self) -> (message: String)
        ensures
            message@ == self.text(),
    {
        match self {
            JobError::InvalidId => "invalid job id".to_string(),
            JobError::Unreadable(path) => "could not read ".to_string().concat(path.as_str()),
            JobError::InvalidFile(path) => "invalid ".to_string().concat(path.as_str()),
            JobError::NotAwaitingApproval => "job is not awaiting approval".to_string(),
            JobError::Terminal(id) => "cannot transition terminal job ".to_string().concat(id.as_str()),
            JobError::NotRetriable => "only blocked or failed jobs can be retried".to_string(),
            JobError::UnknownCriterion(id) => "unknown acceptance criterion ".to_string().concat(id.as_str()),
            JobError::NotApproved => "the specification has not been explicitly approved".to_string(),
            JobError::Interrupted => "an interrupted job must be explicitly retried before completion".to_string(),
            JobError::GatesNotPassed => "required completion gates have not all passed".to_string(),
            JobError::CriteriaUnverified => "acceptance criteria are missing or unverified".to_string(),
            JobError::NoOpenQuestion => "no unanswered clarification question remains".to_string(),
        }
    }
}

/// The message of a refused change of state.
pub open spec fn terminal_text(id: Seq<char>) -> Seq<char> {
    "cannot transition terminal job "@ + id
}

/// The event of a change of state.
pub open spec fn state_event(state: JobState, message: Seq<char>, now: u64) -> EventView {
    EventView { timestamp: now, kind: "state"@, message: redaction::redacted(state.title() + ": "@ + message) }
}

impl JobView {
    /// The job after an event.
    pub open spec fn noted(self, kind: Seq<char>, message: Seq<char>, now: u64) -> JobView {
        JobView {
            events: self.events.push(EventView { timestamp: now, kind, message: redaction::redacted(message) }),
            ..self
        }
    }

    /// The job after a change of state.
    pub open spec fn moved(self, state: JobState, message: Seq<char>, now: u64) -> JobView {
        JobView {
            record: RecordView { state, updated_at: now, message, ..self.record },
            events: self.events.push(state_event(state, message, now)),
            ..self
        }
    }

    /// The job after a change of state was tried: moved, or as it was where it may not move.
    pub open spec fn attempted(self, state: JobState, message: Seq<char>, now: u64) -> JobView {
        if self.record.state.may_become(state) {
            self.moved(state, message, now)
        } else {
            self
        }
    }

    /// The job with a new specification, before it is put up for approval.
    pub open spec fn specified(self, specification: Seq<char>, criteria: Seq<CriterionView>) -> JobView {
        JobView { specification, criteria, ..self }
    }

    /// Why the job cannot complete, where it cannot.
    pub open spec fn completion_fault(self) -> Option<Seq<char>> {
        if self.record.approved_at is None {
            Some(JobError::NotApproved.text())
        } else if self.record.interrupted {
            Some(JobError::Interrupted.text())
        } else if !gates_pass(self.gates) {
            Some(JobError::GatesNotPassed.text())
        } else if !all_verified(self.criteria) {
            Some(JobError::CriteriaUnverified.text())
        } else {
            None
        }
    }

    /// The job after its criteria were held against the checks.
    pub open spec fn evidenced(self, checks: Seq<CheckExecution>, ui_category: Seq<char>) -> JobView {
        JobView { criteria: Seq::new(self.criteria.len(), |i: int| checked(self.criteria[i], checks, ui_category)), ..self }
    }
}

/// The position of the first criterion with the id, or the number of criteria where there is none.
pub open spec fn criterion_index(criteria: Seq<CriterionView>, id: Seq<char>) -> int
    decreases criteria.len(),
{
    if criteria.len() == 0 || criteria.first().id == id {
        0
    } else {
        1 + criterion_index(criteria.drop_first(), id)
    }
}

proof fn criterion_index_is(criteria: Seq<CriterionView>, id: Seq<char>, k: int)
    requires
        0 <= k <= criteria.len(),
        forall|i: int| 0 <= i < k ==> (#[trigger] criteria[i]).id != id,
        k < criteria.len() ==> criteria[k].id == id,
    ensures
        criterion_index(criteria, id) == k,
    decreases k,
{
    if k > 0 {
        assert(criteria[0].id != id);
        let rest = criteria.drop_first();
        assert forall|i: int| 0 <= i < k - 1 implies (#[trigger] rest[i]).id != id by {
            assert(rest[i] == criteria[i + 1]);
        }
        criterion_index_is(rest, id, k - 1);
    }
}

fn find_criterion(criteria: &Vec<AcceptanceCriterion>, id: &str) -> (at: usize)
    ensures
        at == criterion_index(model::views(criteria@), id@),
        at <= criteria@.len(),
{
    let ghost all = model::views(criteria@);
    let mut at: usize = 0;
    while at < criteria.len() && !text::same(criteria[at].id.as_str(), id)
        invariant
            at <= criteria@.len(),
            all == model::views(criteria@),
            forall|i: int| 0 <= i < at ==> (#[trigger] all[i]).id != id@,
        decreases criteria@.len() - at,
    {
        assert(all[at as int] == criteria@[at as int]@);
        at = at + 1;
    }
    proof {
        if at < criteria@.len() {
            assert(all[at as int] == criteria@[at as int]@);
        }
        criterion_index_is(all, id@, at as int);
    }
    at
}

/// The manual evidence that an actor gives.
pub open spec fn manual_evidence(reference: Seq<char>, actor: Seq<char>) -> EvidenceView {
    EvidenceView {
        evidence_type: "manual"@,
        reference: reference + " (approved by "@ + actor + ")"@,
        result: "passed"@,
    }
}

/// A criterion after an actor gave manual evidence for it.
pub open spec fn vouched(criterion: CriterionView, reference: Seq<char>, actor: Seq<char>) -> CriterionView {
    let evidence = criterion.evidence.push(manual_evidence(reference, actor));
    CriterionView {
        evidence,
        status: if all_backed(criterion.required_evidence, evidence) {
            CriterionStatus::Verified
        } else {
            CriterionStatus::Unverified
        },
        ..criterion
    }
}

/// Findings with the ids of the criteria that they are about.
pub open spec fn finding_pairs(findings: Seq<(String, String)>) -> Seq<(Seq<char>, Seq<char>)> {
    Seq::new(findings.len(), |i: int| (findings[i].0@, findings[i].1@))
}

/// The criteria after findings were added, each to the first criterion with its id.
pub open spec fn with_findings(criteria: Seq<CriterionView>, findings: Seq<(Seq<char>, Seq<char>)>) -> Seq<CriterionView>
    decreases findings.len(),
{
    if findings.len() == 0 {
        criteria
    } else {
        let before = with_findings(criteria, findings.drop_last());
        let i = criterion_index(before, findings.last().0);
        if i < before.len() {
            before.update(
                i,
                (CriterionView { reviewer_findings: before[i].reviewer_findings.push(findings.last().1), ..before[i] }),
            )
        } else {
            before
        }
    }
}

/// The names of the files of a job.
pub open spec fn file_names() -> Seq<Seq<char>> {
    seq![
        "request.md"@,
        "conversation.jsonl"@,
        "specification.md"@,
        "requirements.json"@,
        "acceptance-criteria.json"@,
        "state.json"@,
        "events.jsonl"@,
        "worker-invocations.jsonl"@,
        "changed-files.json"@,
        "check-results.json"@,
        "review.json"@,
        "completion-gates.json"@,
        "final-report.md"@,
    ]
}

impl Job {
    /// Where the job is stored.
    pub fn root(&self) -> (root: &str)
        ensures
            root@ == self@.root,
    {
        self.root.as_str()
    }

    /// Where a file of the job is stored.
    pub fn path(&self, name: &str) -> (path: String)
        ensures
            path@ == paths::joined_path(self@.root, name@),
    {
        paths::join(self.root.as_str(), name)
    }

    /// Where the artifacts of the job are stored.
    pub fn artifact_dir(&self) -> (path: String)
        ensures
            path@ == paths::joined_path(self@.root, "artifacts"@),
    {
        paths::join(self.root.as_str(), "artifacts")
    }

    /// The names of the files that every job has.
    pub fn files() -> (names: Vec<String>)
        ensures
            text::texts(names@) == file_names(),
    {
        let names = crate::project_config::argv_of(
            &[
                "request.md",
                "conversation.jsonl",
                "specification.md",
                "requirements.json",
                "acceptance-criteria.json",
                "state.json",
                "events.jsonl",
                "worker-invocations.jsonl",
                "changed-files.json",
                "check-results.json",
                "review.json",
                "completion-gates.json",
                "final-report.md",
            ],
        );
        assert(text::texts(names@) =~= file_names());
        names
    }

    /// What was asked for.
    pub fn request(&self) -> (request: &str)
        ensures
            request@ == self@.request,
    {
        self.request.as_str()
    }

    /// What is to be done.
    pub fn specification(&self) -> (specification: &str)
        ensures
            specification@ == self@.specification,
    {
        self.specification.as_str()
    }

    /// The acceptance criteria.
    pub fn criteria(&self) -> (criteria: &Vec<AcceptanceCriterion>)
        ensures
            *criteria == self.criteria,
            model::views(criteria@) == self@.criteria,
    {
        &self.criteria
    }

    /// The completion gates.
    pub fn gates(&self) -> (gates: &Vec<CompletionGate>)
        ensures
            *gates == self.gates,
            model::views(gates@) == self@.gates,
    {
        &self.gates
    }

    /// Records an event, without what looks like a credential.
    pub fn event(&mut self, kind: &str, message: &str, now: u64)
        ensures
            final(self)@ == old(self)@.noted(kind@, message@, now),
            final(self).gates == old(self).gates,
            final(self).criteria == old(self).criteria,
    {
        let ghost before = self.events@;
        let event = JobEvent { timestamp: now, kind: kind.to_string(), message: redaction::redact(message) };
        self.events.push(event);
        assert(model::views(self.events@) =~= model::views(before).push(event@));
    }

    /// Records a message about the job.
    pub fn converse(&mut self, conversation_id: &str, sender: &str, direction: &str, content: &str, now: u64)
        ensures
            final(self)@ == (JobView {
                conversation: old(self)@.conversation.push(
                    LineView {
                        timestamp: now,
                        conversation_id: conversation_id@,
                        sender: sender@,
                        direction: direction@,
                        content: content@,
                    },
                ),
                ..old(self)@
            }),
    {
        let ghost before = self.conversation@;
        let line = ConversationLine {
            timestamp: now,
            conversation_id: conversation_id.to_string(),
            sender: sender.to_string(),
            direction: direction.to_string(),
            content: content.to_string(),
        };
        self.conversation.push(line);
        assert(model::views(self.conversation@) =~= model::views(before).push(line@));
    }

    /// Moves the job to a state. A job that came to its end stays there, but for a retry.
    pub fn transition(&mut self, state: JobState, message: &str, now: u64) -> (result: Result<(), JobError>)
        ensures
            result is Ok <==> old(self)@.record.state.may_become(state),
            final(self)@ == old(self)@.attempted(state, message@, now),
            result matches Err(error) ==> error.text() == terminal_text(old(self)@.record.id) && *final(self) == *old(self),
            final(self).gates == old(self).gates,
            final(self).criteria == old(self).criteria,
    {
        let retrying = state == JobState::Approved && self.record.state.is_retriable();
        if self.record.state.is_terminal() && self.record.state != state && !retrying {
            return Err(JobError::Terminal(self.record.id.clone()));
        }
        self.record.state = state;
        self.record.updated_at = now;
        self.record.message = message.to_string();
        let told = state.name().concat(": ").concat(message);
        self.event("state", told.as_str(), now);
        Ok(())
    }

    /// Stores a specification with its criteria and puts it up for approval.
    pub fn set_specification(&mut self, specification: &str, criteria: &Vec<AcceptanceCriterion>, now: u64) -> (result: Result<
        (),
        JobError,
    >)
        ensures
            result is Ok <==> old(self)@.record.state.may_become(JobState::AwaitingApproval),
            final(self)@ == old(self)@.specified(specification@, model::views(criteria@)).attempted(
                JobState::AwaitingApproval,
                "Specification is ready for approval"@,
                now,
            ),
            result matches Err(error) ==> error.text() == terminal_text(old(self)@.record.id),
    {
        self.specification = specification.to_string();
        self.criteria = copy_criteria(criteria);
        self.transition(JobState::AwaitingApproval, "Specification is ready for approval", now)
    }

    /// Approves the specification.
    pub fn approve(&mut self, now: u64) -> (result: Result<(), JobError>)
        ensures
            result is Ok <==> old(self)@.record.state is AwaitingApproval,
            result is Ok ==> final(self)@ == (JobView {
                record: RecordView { approved_at: Some(now), ..old(self)@.record },
                ..old(self)@
            }).moved(JobState::Approved, "Specification approved"@, now),
            result matches Err(error) ==> error is NotAwaitingApproval && *final(self) == *old(self),
    {
        if self.record.state != JobState::AwaitingApproval {
            return Err(JobError::NotAwaitingApproval);
        }
        self.record.approved_at = Some(now);
        self.transition(JobState::Approved, "Specification approved", now)
    }

    /// Lets a blocked or failed job start again.
    pub fn retry(&mut self, now: u64) -> (result: Result<(), JobError>)
        ensures
            result is Ok <==> old(self)@.record.state.retriable(),
            result is Ok ==> final(self)@ == (JobView {
                record: RecordView { interrupted: false, ..old(self)@.record },
                ..old(self)@
            }).moved(JobState::Approved, "Job approved for retry"@, now),
            result matches Err(error) ==> error is NotRetriable && *final(self) == *old(self),
    {
        if !self.record.state.is_retriable() {
            return Err(JobError::NotRetriable);
        }
        self.record.interrupted = false;
        self.transition(JobState::Approved, "Job approved for retry", now)
    }

    /// Replaces the completion gates.
    pub fn set_gates(&mut self, gates: &Vec<CompletionGate>)
        ensures
            final(self)@ == (JobView { gates: model::views(gates@), ..old(self)@ }),
    {
        self.gates = copy_gates(gates);
    }

    /// Whether some gate is required, and every required one passed.
    pub fn all_required_gates_pass(&self) -> (answer: bool)
        ensures
            answer == gates_pass(self@.gates),
    {
        let ghost all = self@.gates;
        let mut any = false;
        let mut at: usize = 0;
        while at < self.gates.len()
            invariant
                at <= self.gates@.len(),
                all == model::views(self.gates@),
                any == exists|i: int| 0 <= i < at && (#[trigger] all[i]).required,
                forall|i: int| 0 <= i < at && (#[trigger] all[i]).required ==> all[i].status is Passed,
            decreases self.gates@.len() - at,
        {
            assert(all[at as int] == self.gates@[at as int]@);
            if self.gates[at].required {
                if self.gates[at].status != GateStatus::Passed {
                    return false;
                }
                any = true;
            }
            at = at + 1;
        }
        any
    }

    /// Whether there are criteria and all are met.
    pub fn criteria_verified(&self) -> (answer: bool)
        ensures
            answer == all_verified(self@.criteria),
    {
        let ghost all = self@.criteria;
        let mut at: usize = 0;
        while at < self.criteria.len()
            invariant
                at <= self.criteria@.len(),
                all == model::views(self.criteria@),
                forall|i: int| 0 <= i < at ==> (#[trigger] all[i]).status is Verified,
            decreases self.criteria@.len() - at,
        {
            assert(all[at as int] == self.criteria@[at as int]@);
            if self.criteria[at].status != CriterionStatus::Verified {
                return false;
            }
            at = at + 1;
        }
        self.criteria.len() > 0
    }

    /// Holds the criteria against the checks that were run. The answer is whether there are
    /// criteria and all are met.
    pub fn apply_check_evidence(&mut self, checks: &Vec<CheckExecution>, ui_category: &str) -> (verified: bool)
        ensures
            final(self)@ == old(self)@.evidenced(checks@, ui_category@),
            verified == all_verified(final(self)@.criteria),
            final(self).gates == old(self).gates,
    {
        let ghost start = self@;
        let mut at: usize = 0;
        while at < self.criteria.len()
            invariant
                at <= self.criteria@.len(),
                self.criteria@.len() == start.criteria.len(),
                forall|i: int| 0 <= i < at ==> (#[trigger] self.criteria@[i])@ == checked(start.criteria[i], checks@, ui_category@),
                forall|i: int| at <= i < self.criteria@.len() ==> (#[trigger] self.criteria@[i])@ == start.criteria[i],
                self@ == (JobView { criteria: self@.criteria, ..start }),
                self.gates == old(self).gates,
            decreases self.criteria@.len() - at,
        {
            check_criterion(&mut self.criteria[at], checks, ui_category);
            at = at + 1;
        }
        assert(self@.criteria =~= start.evidenced(checks@, ui_category@).criteria);
        self.criteria_verified()
    }

    /// Records that an actor vouches for a criterion.
    pub fn add_manual_evidence(&mut self, criterion_id: &str, reference: &str, actor: &str, now: u64) -> (result: Result<
        (),
        JobError,
    >)
        ensures
            ({
                let i = criterion_index(old(self)@.criteria, criterion_id@);
                if i < old(self)@.criteria.len() {
                    &&& result is Ok
                    &&& final(self)@ == (JobView {
                        criteria: old(self)@.criteria.update(i, vouched(old(self)@.criteria[i], reference@, actor@)),
                        ..old(self)@
                    }).noted(
                        "manual_evidence"@,
                        actor@ + " approved manual evidence for "@ + criterion_id@ + ": "@ + reference@,
                        now,
                    )
                } else {
                    &&& result is Err
                    &&& result->Err_0.text() == "unknown acceptance criterion "@ + criterion_id@
                    &&& *final(self) == *old(self)
                }
            }),
    {
        let at = find_criterion(&self.criteria, criterion_id);
        if at >= self.criteria.len() {
            return Err(JobError::UnknownCriterion(criterion_id.to_string()));
        }
        let ghost start = self@;
        let ghost before = self.criteria@[at as int].evidence@;
        let evidence = CriterionEvidence {
            evidence_type: "manual".to_string(),
            reference: reference.to_string().concat(" (approved by ").concat(actor).concat(")"),
            result: "passed".to_string(),
        };
        self.criteria[at].evidence.push(evidence);
        assert(model::views(self.criteria@[at as int].evidence@) =~= model::views(before).push(evidence@));
        self.criteria[at].status = if is_all_backed(&self.criteria[at].required_evidence, &self.criteria[at].evidence) {
            CriterionStatus::Verified
        } else {
            CriterionStatus::Unverified
        };
        assert(self@.criteria =~= start.criteria.update(at as int, vouched(start.criteria[at as int], reference@, actor@)));
        let told = actor.to_string().concat(" approved manual evidence for ").concat(criterion_id).concat(": ").concat(
            reference,
        );
        self.event("manual_evidence", told.as_str(), now);
        Ok(())
    }

    /// Adds the findings of a review, each to the first criterion with its id. What is said of other
    /// criteria is dropped.
    pub fn add_reviewer_findings(&mut self, findings: &Vec<(String, String)>)
        ensures
            final(self)@ == (JobView {
                criteria: with_findings(old(self)@.criteria, finding_pairs(findings@)),
                ..old(self)@
            }),
            final(self).gates == old(self).gates,
    {
        let ghost start = self@;
        let ghost pairs = finding_pairs(findings@);
        let mut at: usize = 0;
        assert(pairs.take(0) =~= Seq::<(Seq<char>, Seq<char>)>::empty());
        while at < findings.len()
            invariant
                at <= findings@.len(),
                pairs == finding_pairs(findings@),
                self@ == (JobView { criteria: with_findings(start.criteria, pairs.take(at as int)), ..start }),
                self.gates == old(self).gates,
            decreases findings@.len() - at,
        {
            let ghost next = pairs.take(at + 1);
            assert(next.drop_last() =~= pairs.take(at as int));
            assert(next.last() == (findings@[at as int].0@, findings@[at as int].1@));
            let ghost before = self@.criteria;
            let place = find_criterion(&self.criteria, findings[at].0.as_str());
            if place < self.criteria.len() {
                let ghost listed = self.criteria@[place as int].reviewer_findings@;
                self.criteria[place].reviewer_findings.push(findings[at].1.clone());
                assert(text::texts(self.criteria@[place as int].reviewer_findings@) =~= text::texts(listed).push(
                    findings@[at as int].1@,
                ));
                assert(self@.criteria =~= before.update(
                    place as int,
                    (CriterionView {
                        reviewer_findings: before[place as int].reviewer_findings.push(findings@[at as int].1@),
                        ..before[place as int]
                    }),
                ));
            }
            at = at + 1;
        }
        assert(pairs.take(at as int) =~= pairs);
    }

    /// Completes the job with a report, where it is approved, was not interrupted, has passed all
    /// required gates and meets all criteria.
    pub fn finish(&mut self, report: &str, now: u64) -> (result: Result<(), JobError>)
        ensures
            match old(self)@.completion_fault() {
                Some(message) => result is Err && result->Err_0.text() == message && *final(self) == *old(self),
                None => {
                    let reported = JobView { final_report: report@, ..old(self)@ };
                    if old(self)@.record.state.may_become(JobState::Complete) {
                        result is Ok && final(self)@ == reported.moved(
                            JobState::Complete,
                            "All required completion gates passed"@,
                            now,
                        )
                    } else {
                        result is Err && result->Err_0.text() == terminal_text(old(self)@.record.id)
                            && final(self)@ == reported
                    }
                },
            },
    {
        if self.record.approved_at.is_none() {
            return Err(JobError::NotApproved);
        }
        if self.record.interrupted {
            return Err(JobError::Interrupted);
        }
        if !self.all_required_gates_pass() {
            return Err(JobError::GatesNotPassed);
        }
        if !self.criteria_verified() {
            return Err(JobError::CriteriaUnverified);
        }
        self.final_report = report.to_string();
        self.transition(JobState::Complete, "All required completion gates passed", now)
    }
}

// ---------------------------------------------------------------------------
// What always holds
// ---------------------------------------------------------------------------

/// A completed or cancelled job never changes its state, and a blocked or failed one only by a
/// retry.
pub proof fn ended_jobs_stay_ended(state: JobState, next: JobState)
    requires
        state.terminal(),
        next != state,
    ensures
        state.may_become(next) <==> next is Approved && (state is Blocked || state is Failed),
{
}

/// Gates for which nothing was done yet never pass: what was not run is not passed.
pub proof fn untouched_gates_do_not_pass(required_checks: Seq<Seq<char>>, require_review: bool, now: u64)
    ensures
        !gates_pass(initial_gates(required_checks, require_review, now)),
{
    let gates = initial_gates(required_checks, require_review, now);
    assert(gates[1].required && gates[1].status is NotRun);
}

/// Without gates, or with none that is required, nothing passes.
pub proof fn no_gates_do_not_pass(gates: Seq<GateView>)
    requires
        forall|i: int| 0 <= i < gates.len() ==> !(#[trigger] gates[i]).required,
    ensures
        !gates_pass(gates),
{
}

/// A job that can complete is approved, not interrupted, and has passed every required gate and met
/// every criterion, of which there is at least one each.
pub proof fn completion_is_earned(job: JobView)
    requires
        job.completion_fault() is None,
    ensures
        job.record.approved_at is Some,
        !job.record.interrupted,
        exists|i: int| 0 <= i < job.gates.len() && (#[trigger] job.gates[i]).required,
        forall|i: int| 0 <= i < job.gates.len() && (#[trigger] job.gates[i]).required ==> job.gates[i].status is Passed,
        job.criteria.len() > 0,
        forall|i: int| 0 <= i < job.criteria.len() ==> (#[trigger] job.criteria[i]).status is Verified,
{
}

/// A criterion of which nothing is known is not met.
pub proof fn fresh_criteria_are_not_met(id: Seq<char>, description: Seq<char>, required: Seq<Seq<char>>)
    ensures
        !(fresh_criterion(id, description, required).status is Verified),
        checked(fresh_criterion(id, description, required), Seq::empty(), Seq::empty()).status is Unverified,
{
    let criterion = fresh_criterion(id, description, required);
    nothing_gathered(required, Seq::empty());
    assert(manual_only(criterion.evidence) + gathered(required, Seq::empty(), Seq::empty()) =~= Seq::<EvidenceView>::empty());
    if required.len() > 0 {
        assert(!backed(Seq::empty(), required[0]));
    }
}

proof fn nothing_gathered(required: Seq<Seq<char>>, ui_category: Seq<char>)
    ensures
        gathered(required, Seq::empty(), ui_category) == Seq::<EvidenceView>::empty(),
    decreases required.len(),
{
    if required.len() > 0 {
        nothing_gathered(required.drop_last(), ui_category);
        assert(gathered(required, Seq::empty(), ui_category) =~= Seq::empty());
    }
}

proof fn manual_only_concat(left: Seq<EvidenceView>, right: Seq<EvidenceView>)
    ensures
        manual_only(left + right) == manual_only(left) + manual_only(right),
    decreases right.len(),
{
    if right.len() == 0 {
        assert(left + right =~= left);
        assert(manual_only(left) + manual_only(right) =~= manual_only(left));
    } else {
        assert((left + right).drop_last() =~= left + right.drop_last());
        assert((left + right).last() == right.last());
        manual_only_concat(left, right.drop_last());
        if right.last().evidence_type == "manual"@ {
            assert(manual_only(left + right) =~= manual_only(left) + manual_only(right));
        }
    }
}

proof fn manual_only_twice(evidence: Seq<EvidenceView>)
    ensures
        manual_only(manual_only(evidence)) == manual_only(evidence),
    decreases evidence.len(),
{
    if evidence.len() > 0 {
        manual_only_twice(evidence.drop_last());
        if evidence.last().evidence_type == "manual"@ {
            let kept = manual_only(evidence);
            assert(kept.drop_last() =~= manual_only(evidence.drop_last()));
        }
    }
}

proof fn checks_give_no_manual_evidence(required: Seq<char>, checks: Seq<CheckExecution>, ui_category: Seq<char>)
    ensures
        manual_only(evidence_of(required, checks, ui_category)) == Seq::<EvidenceView>::empty(),
    decreases checks.len(),
{
    if checks.len() > 0 {
        checks_give_no_manual_evidence(required, checks.drop_last(), ui_category);
        if bears_on(required, checks.last().category@, ui_category) {
            manual_is_its_own_name();
            let all = evidence_of(required, checks, ui_category);
            assert(all.drop_last() =~= evidence_of(required, checks.drop_last(), ui_category));
            assert(all.last().evidence_type == required);
        }
    }
}

proof fn manual_is_its_own_name()
    ensures
        "manual"@ != "unit_test"@,
        "manual"@ != "browser_test"@,
        "manual"@ != "required_check"@,
{
    reveal_strlit("manual");
    reveal_strlit("unit_test");
    reveal_strlit("browser_test");
    reveal_strlit("required_check");
    assert("manual"@.len() == 6);
}

proof fn gathered_is_not_manual(required: Seq<Seq<char>>, checks: Seq<CheckExecution>, ui_category: Seq<char>)
    ensures
        manual_only(gathered(required, checks, ui_category)) == Seq::<EvidenceView>::empty(),
    decreases required.len(),
{
    if required.len() > 0 {
        gathered_is_not_manual(required.drop_last(), checks, ui_category);
        checks_give_no_manual_evidence(required.last(), checks, ui_category);
        manual_only_concat(
            gathered(required.drop_last(), checks, ui_category),
            evidence_of(required.last(), checks, ui_category),
        );
        assert(Seq::<EvidenceView>::empty() + Seq::<EvidenceView>::empty() =~= Seq::<EvidenceView>::empty());
    }
}

/// To hold a criterion against other checks, whatever the category of the browser tests is by then,
/// forgets the earlier checks and keeps the manual evidence. So to do it twice with the same checks
/// changes nothing.
pub proof fn checks_replace_earlier_checks(
    criterion: CriterionView,
    earlier: Seq<CheckExecution>,
    earlier_ui: Seq<char>,
    later: Seq<CheckExecution>,
    later_ui: Seq<char>,
)
    ensures
        checked(checked(criterion, earlier, earlier_ui), later, later_ui) == checked(criterion, later, later_ui),
        checked(checked(criterion, later, later_ui), later, later_ui) == checked(criterion, later, later_ui),
{
    manual_only_twice(criterion.evidence);
    gathered_is_not_manual(criterion.required_evidence, earlier, earlier_ui);
    gathered_is_not_manual(criterion.required_evidence, later, later_ui);
    manual_only_concat(manual_only(criterion.evidence), gathered(criterion.required_evidence, earlier, earlier_ui));
    manual_only_concat(manual_only(criterion.evidence), gathered(criterion.required_evidence, later, later_ui));
    assert(manual_only(criterion.evidence) + Seq::<EvidenceView>::empty() =~= manual_only(criterion.evidence));
}

proof fn evidence_has_a_check(required: Seq<char>, checks: Seq<CheckExecution>, ui_category: Seq<char>, i: int)
    requires
        0 <= i < evidence_of(required, checks, ui_category).len(),
    ensures
        evidence_of(required, checks, ui_category)[i].evidence_type == required,
        exists|k: int| 0 <= k < checks.len() && bears_on(required, (#[trigger] checks[k]).category@, ui_category)
            && evidence_of(required, checks, ui_category)[i] == check_evidence(required, checks[k]),
    decreases checks.len(),
{
    if checks.len() > 0 {
        let before = evidence_of(required, checks.drop_last(), ui_category);
        if i < before.len() {
            evidence_has_a_check(required, checks.drop_last(), ui_category, i);
            let k = choose|k: int|
                0 <= k < checks.drop_last().len() && bears_on(
                    required,
                    (#[trigger] checks.drop_last()[k]).category@,
                    ui_category,
                ) && before[i] == check_evidence(required, checks.drop_last()[k]);
            assert(checks[k] == checks.drop_last()[k]);
        } else {
            assert(checks[checks.len() - 1] == checks.last());
        }
    }
}

proof fn gathered_has_a_check(required: Seq<Seq<char>>, checks: Seq<CheckExecution>, ui_category: Seq<char>, i: int)
    requires
        0 <= i < gathered(required, checks, ui_category).len(),
    ensures
        ({
            let item = gathered(required, checks, ui_category)[i];
            exists|k: int| 0 <= k < checks.len() && bears_on(
                item.evidence_type,
                (#[trigger] checks[k]).category@,
                ui_category,
            ) && item == check_evidence(item.evidence_type, checks[k])
        }),
    decreases required.len(),
{
    if required.len() > 0 {
        let before = gathered(required.drop_last(), checks, ui_category);
        if i < before.len() {
            gathered_has_a_check(required.drop_last(), checks, ui_category, i);
        } else {
            evidence_has_a_check(required.last(), checks, ui_category, i - before.len());
        }
    }
}

proof fn manual_only_is_manual(evidence: Seq<EvidenceView>, i: int)
    requires
        0 <= i < manual_only(evidence).len(),
    ensures
        manual_only(evidence)[i].evidence_type == "manual"@,
    decreases evidence.len(),
{
    if evidence.len() > 0 {
        if i < manual_only(evidence.drop_last()).len() {
            manual_only_is_manual(evidence.drop_last(), i);
        }
    }
}

/// A criterion that is met after the checks needs some evidence, and each type of evidence that it
/// needs, but for manual evidence, is backed by a check of that kind that succeeded.
pub proof fn met_criteria_are_backed_by_checks(
    criterion: CriterionView,
    checks: Seq<CheckExecution>,
    ui_category: Seq<char>,
    r: int,
)
    requires
        checked(criterion, checks, ui_category).status is Verified,
        0 <= r < criterion.required_evidence.len(),
        criterion.required_evidence[r] != "manual"@,
    ensures
        criterion.required_evidence.len() > 0,
        exists|k: int| 0 <= k < checks.len() && bears_on(
            criterion.required_evidence[r],
            (#[trigger] checks[k]).category@,
            ui_category,
        ) && checks[k].result.succeeded(),
{
    let manual = manual_only(criterion.evidence);
    let more = gathered(criterion.required_evidence, checks, ui_category);
    let evidence = manual + more;
    let required = criterion.required_evidence[r];
    assert(backed(evidence, required));
    let i = choose|i: int|
        0 <= i < evidence.len() && (#[trigger] evidence[i]).evidence_type == required && evidence[i].result == "passed"@;
    if i < manual.len() {
        manual_only_is_manual(criterion.evidence, i);
        assert(false);
    }
    gathered_has_a_check(criterion.required_evidence, checks, ui_category, i - manual.len());
    let k = choose|k: int|
        0 <= k < checks.len() && bears_on(required, (#[trigger] checks[k]).category@, ui_category) && evidence[i]
            == check_evidence(required, checks[k]);
    reveal_strlit("passed");
    reveal_strlit("failed");
    assert("passed"@[0] != "failed"@[0]);
    assert(checks[k].result.succeeded());
}

/// Whether checks and manual evidence give what a type of evidence asks for: the unit tests a passed
/// check of the category unit, the browser tests one of the category of the browser tests, a required
/// check any passed check, manual evidence a person, and every other type a passed check of that name.
pub open spec fn satisfied(
    required: Seq<char>,
    manual: Seq<EvidenceView>,
    checks: Seq<CheckExecution>,
    ui_category: Seq<char>,
) -> bool {
    if required == "manual"@ {
        exists|i: int|
            0 <= i < manual.len() && (#[trigger] manual[i]).evidence_type == "manual"@ && manual[i].result == "passed"@
    } else {
        exists|k: int|
            0 <= k < checks.len() && (#[trigger] checks[k]).result.succeeded() && (required == "required_check"@
                || checks[k].category@ == if required == "unit_test"@ {
                "unit"@
            } else if required == "browser_test"@ {
                ui_category
            } else {
                required
            })
    }
}

proof fn evidence_types_differ()
    ensures
        "manual"@ != "unit_test"@,
        "manual"@ != "browser_test"@,
        "manual"@ != "required_check"@,
        "unit_test"@ != "browser_test"@,
        "unit_test"@ != "required_check"@,
        "browser_test"@ != "required_check"@,
        "passed"@ != "failed"@,
{
    reveal_strlit("manual");
    reveal_strlit("unit_test");
    reveal_strlit("browser_test");
    reveal_strlit("required_check");
    reveal_strlit("passed");
    reveal_strlit("failed");
    assert("manual"@.len() == 6);
    assert("unit_test"@.len() == 9);
    assert("browser_test"@.len() == 12);
    assert("required_check"@.len() == 14);
    assert("passed"@[0] == 'p');
    assert("failed"@[0] == 'f');
}

proof fn checks_give_their_evidence(required: Seq<char>, checks: Seq<CheckExecution>, ui_category: Seq<char>, k: int)
    requires
        0 <= k < checks.len(),
        bears_on(required, checks[k].category@, ui_category),
    ensures
        evidence_of(required, checks, ui_category).contains(check_evidence(required, checks[k])),
    decreases checks.len(),
{
    let before = evidence_of(required, checks.drop_last(), ui_category);
    let all = evidence_of(required, checks, ui_category);
    if k == checks.len() - 1 {
        assert(all[before.len() as int] == check_evidence(required, checks[k]));
    } else {
        checks_give_their_evidence(required, checks.drop_last(), ui_category, k);
        assert(all[before.index_of(check_evidence(required, checks[k]))] == check_evidence(required, checks[k]));
    }
}

proof fn gathered_holds_each(required: Seq<Seq<char>>, checks: Seq<CheckExecution>, ui_category: Seq<char>, r: int, item: EvidenceView)
    requires
        0 <= r < required.len(),
        evidence_of(required[r], checks, ui_category).contains(item),
    ensures
        gathered(required, checks, ui_category).contains(item),
    decreases required.len(),
{
    let before = gathered(required.drop_last(), checks, ui_category);
    let last = evidence_of(required.last(), checks, ui_category);
    let all = gathered(required, checks, ui_category);
    if r == required.len() - 1 {
        assert(all[before.len() + last.index_of(item)] == item);
    } else {
        gathered_holds_each(required.drop_last(), checks, ui_category, r, item);
        assert(all[before.index_of(item)] == item);
    }
}

proof fn manual_evidence_stays(evidence: Seq<EvidenceView>, item: EvidenceView)
    ensures
        manual_only(evidence).contains(item) <==> evidence.contains(item) && item.evidence_type == "manual"@,
    decreases evidence.len(),
{
    if evidence.len() > 0 {
        let front = evidence.drop_last();
        let before = manual_only(front);
        manual_evidence_stays(front, item);
        assert(evidence[evidence.len() - 1] == evidence.last());
        assert(evidence.contains(item) <==> front.contains(item) || evidence.last() == item) by {
            if front.contains(item) {
                assert(evidence[front.index_of(item)] == item);
            }
            if evidence.contains(item) && evidence.last() != item {
                assert(front[evidence.index_of(item)] == item);
            }
        }
        let more = before.push(evidence.last());
        assert(more.contains(item) <==> before.contains(item) || evidence.last() == item) by {
            assert(more[before.len() as int] == evidence.last());
            if before.contains(item) {
                assert(more[before.index_of(item)] == item);
            }
            if more.contains(item) && evidence.last() != item {
                assert(before[more.index_of(item)] == item);
            }
        }
    }
}

proof fn backing_is_satisfaction(criterion: CriterionView, checks: Seq<CheckExecution>, ui_category: Seq<char>, r: int)
    requires
        0 <= r < criterion.required_evidence.len(),
    ensures
        backed(checked(criterion, checks, ui_category).evidence, criterion.required_evidence[r]) <==> satisfied(
            criterion.required_evidence[r],
            criterion.evidence,
            checks,
            ui_category,
        ),
{
    evidence_types_differ();
    let required = criterion.required_evidence[r];
    let manual = manual_only(criterion.evidence);
    let more = gathered(criterion.required_evidence, checks, ui_category);
    let all = manual + more;
    if backed(all, required) {
        let i = choose|i: int|
            0 <= i < all.len() && (#[trigger] all[i]).evidence_type == required && all[i].result == "passed"@;
        if i < manual.len() {
            manual_only_is_manual(criterion.evidence, i);
            manual_evidence_stays(criterion.evidence, all[i]);
            assert(manual[i] == all[i]);
            assert(criterion.evidence.contains(all[i]));
            let j = criterion.evidence.index_of(all[i]);
            assert(criterion.evidence[j].evidence_type == "manual"@);
        } else {
            gathered_has_a_check(criterion.required_evidence, checks, ui_category, i - manual.len());
            let item = more[i - manual.len()];
            let k = choose|k: int|
                0 <= k < checks.len() && bears_on(item.evidence_type, (#[trigger] checks[k]).category@, ui_category) && item
                    == check_evidence(item.evidence_type, checks[k]);
            assert(checks[k].result.succeeded());
        }
    }
    if satisfied(required, criterion.evidence, checks, ui_category) {
        if required == "manual"@ {
            let i = choose|i: int|
                0 <= i < criterion.evidence.len() && (#[trigger] criterion.evidence[i]).evidence_type == "manual"@
                    && criterion.evidence[i].result == "passed"@;
            let item = criterion.evidence[i];
            assert(criterion.evidence.contains(item));
            manual_evidence_stays(criterion.evidence, item);
            assert(all[manual.index_of(item)] == item);
        } else {
            let k = choose|k: int|
                0 <= k < checks.len() && (#[trigger] checks[k]).result.succeeded() && (required == "required_check"@
                    || checks[k].category@ == if required == "unit_test"@ {
                    "unit"@
                } else if required == "browser_test"@ {
                    ui_category
                } else {
                    required
                });
            let item = check_evidence(required, checks[k]);
            checks_give_their_evidence(required, checks, ui_category, k);
            gathered_holds_each(criterion.required_evidence, checks, ui_category, r, item);
            assert(all[manual.len() + more.index_of(item)] == item);
        }
    }
}

/// A criterion is met after the checks exactly where it asks for evidence and gets all that it asks for:
/// the unit tests by a passed check of the category unit, the browser tests by one of the category of
/// the browser tests, a required check by any passed check, manual evidence by a person, and every other
/// type by a passed check of that name.
pub proof fn criteria_are_met_by_what_they_ask_for(
    criterion: CriterionView,
    checks: Seq<CheckExecution>,
    ui_category: Seq<char>,
)
    ensures
        checked(criterion, checks, ui_category).status is Verified <==> criterion.required_evidence.len() > 0 && (forall|r: int|
            0 <= r < criterion.required_evidence.len() ==> satisfied(
                #[trigger] criterion.required_evidence[r],
                criterion.evidence,
                checks,
                ui_category,
            )),
        checked(criterion, checks, ui_category).id == criterion.id,
        checked(criterion, checks, ui_category).description == criterion.description,
        checked(criterion, checks, ui_category).required_evidence == criterion.required_evidence,
{
    let evidence = checked(criterion, checks, ui_category).evidence;
    let required = criterion.required_evidence;
    assert forall|r: int| 0 <= r < required.len() implies (backed(evidence, #[trigger] required[r]) <==> satisfied(
        required[r],
        criterion.evidence,
        checks,
        ui_category,
    )) by {
        backing_is_satisfaction(criterion, checks, ui_category, r);
    }
}

/// A criterion of which some check failed, and that is not met, has failed; it is only unverified where
/// nothing that it asks for failed.
pub proof fn failed_checks_fail_criteria(criterion: CriterionView, checks: Seq<CheckExecution>, ui_category: Seq<char>, r: int, k: int)
    requires
        0 <= r < criterion.required_evidence.len(),
        0 <= k < checks.len(),
        !checks[k].result.succeeded(),
        criterion.required_evidence[r] == "required_check"@ || criterion.required_evidence[r] == "unit_test"@
            && checks[k].category@ == "unit"@ || criterion.required_evidence[r] == "browser_test"@ && checks[k].category@
            == ui_category,
    ensures
        !(checked(criterion, checks, ui_category).status is Unverified),
{
    evidence_types_differ();
    let required = criterion.required_evidence[r];
    let manual = manual_only(criterion.evidence);
    let more = gathered(criterion.required_evidence, checks, ui_category);
    let item = check_evidence(required, checks[k]);
    checks_give_their_evidence(required, checks, ui_category, k);
    gathered_holds_each(criterion.required_evidence, checks, ui_category, r, item);
    let evidence = manual + more;
    assert(evidence[manual.len() + more.index_of(item)] == item);
    assert(any_failed(evidence));
}

/// A person who vouches for a criterion meets it where it asks for nothing but manual evidence, and is
/// named in the evidence.
pub proof fn people_meet_manual_criteria(criterion: CriterionView, reference: Seq<char>, actor: Seq<char>)
    ensures
        ({
            let after = vouched(criterion, reference, actor);
            &&& after.evidence.last().evidence_type == "manual"@
            &&& after.evidence.last().result == "passed"@
            &&& text::holds(after.evidence.last().reference, reference)
            &&& text::holds(after.evidence.last().reference, actor)
            &&& after.evidence.drop_last() == criterion.evidence
            &&& (forall|r: int|
                0 <= r < criterion.required_evidence.len() ==> #[trigger] criterion.required_evidence[r] == "manual"@)
                ==> after.status is Verified
            &&& (exists|r: int|
                0 <= r < criterion.required_evidence.len() && #[trigger] criterion.required_evidence[r] != "manual"@ && !backed(
                    criterion.evidence,
                    criterion.required_evidence[r],
                )) ==> after.status is Unverified
        }),
{
    let after = vouched(criterion, reference, actor);
    let evidence = after.evidence;
    let n = criterion.evidence.len() as int;
    assert(evidence[n] == manual_evidence(reference, actor));
    assert(evidence.drop_last() =~= criterion.evidence);
    let shown = manual_evidence(reference, actor).reference;
    text::parts_are_held(Seq::empty(), reference, " (approved by "@ + actor + ")"@);
    assert(Seq::<char>::empty() + reference + (" (approved by "@ + actor + ")"@) =~= shown);
    text::parts_are_held(reference + " (approved by "@, actor, ")"@);
    let required = criterion.required_evidence;
    if forall|r: int| 0 <= r < required.len() ==> #[trigger] required[r] == "manual"@ {
        assert forall|r: int| 0 <= r < required.len() implies backed(evidence, #[trigger] required[r]) by {
            assert(evidence[n].evidence_type == required[r]);
        }
    }
    if exists|r: int| 0 <= r < required.len() && #[trigger] required[r] != "manual"@ && !backed(criterion.evidence, required[r]) {
        let r = choose|r: int|
            0 <= r < required.len() && #[trigger] required[r] != "manual"@ && !backed(criterion.evidence, required[r]);
        if backed(evidence, required[r]) {
            let i = choose|i: int|
                0 <= i < evidence.len() && (#[trigger] evidence[i]).evidence_type == required[r] && evidence[i].result
                    == "passed"@;
            assert(i < n);
            assert(criterion.evidence[i] == evidence[i]);
        }
    }
}

/// A job begins with a required gate for each required check, for the patch and for the criteria, none
/// of them passed; and with one for the review exactly where a review is required. Only the approval of
/// the specification counts as passed.
pub proof fn jobs_begin_with_their_gates(required_checks: Seq<Seq<char>>, require_review: bool, now: u64, i: int)
    ensures
        ({
            let gates = initial_gates(required_checks, require_review, now);
            &&& gates.len() == 3 + required_checks.len() + if require_review { 1int } else { 0int }
            &&& forall|k: int| 0 <= k < gates.len() ==> (#[trigger] gates[k]).required
            &&& forall|k: int| 0 <= k < gates.len() && (#[trigger] gates[k]).status is Passed ==> gates[k].name
                == "specification approved"@
            &&& gates.contains(fresh_gate("patch produced"@, true, GateStatus::NotRun, now))
            &&& gates.contains(fresh_gate("acceptance criteria verified"@, true, GateStatus::NotRun, now))
            &&& 0 <= i < required_checks.len() ==> gates.contains(
                fresh_gate(required_checks[i] + " passed"@, true, GateStatus::NotRun, now),
            )
            &&& require_review ==> gates.contains(fresh_gate("review approved"@, true, GateStatus::NotRun, now))
        }),
{
    let gates = initial_gates(required_checks, require_review, now);
    assert(gates[1] == fresh_gate("patch produced"@, true, GateStatus::NotRun, now));
    assert(gates[2] == fresh_gate("acceptance criteria verified"@, true, GateStatus::NotRun, now));
    if 0 <= i < required_checks.len() {
        assert(gates[3 + i] == fresh_gate(required_checks[i] + " passed"@, true, GateStatus::NotRun, now));
    }
    if require_review {
        assert(gates[(3 + required_checks.len()) as int] == fresh_gate("review approved"@, true, GateStatus::NotRun, now));
    }
}

/// What `gate_index` finds.
pub proof fn gate_index_found(gates: Seq<GateView>, name: Seq<char>)
    ensures
        0 <= gate_index(gates, name) <= gates.len(),
        gate_index(gates, name) < gates.len() ==> gates[gate_index(gates, name)].name == name,
        forall|i: int| 0 <= i < gate_index(gates, name) ==> (#[trigger] gates[i]).name != name,
    decreases gates.len(),
{
    if gates.len() > 0 && gates.first().name != name {
        let rest = gates.drop_first();
        gate_index_found(rest, name);
        assert forall|i: int| 0 <= i < gate_index(gates, name) implies (#[trigger] gates[i]).name != name by {
            if i > 0 {
                assert(rest[i - 1] == gates[i]);
            }
        }
    }
}

/// A gate that is set has the status and the evidence that it was given, and stays required or not; no
/// other gate changes, and none gets another name.
pub proof fn setting_a_gate_sets_that_gate(
    gates: Seq<GateView>,
    name: Seq<char>,
    status: GateStatus,
    evidence: Seq<char>,
    now: u64,
    other: Seq<char>,
)
    ensures
        ({
            let after = gate_set(gates, name, status, evidence, now);
            let i = gate_index(gates, name);
            &&& after.len() == gates.len()
            &&& gate_index(after, other) == gate_index(gates, other)
            &&& i < gates.len() ==> after[i].status == status && after[i].evidence == evidence && after[i].required
                == gates[i].required && after[i].name == name
            &&& forall|k: int| 0 <= k < gates.len() && k != i ==> #[trigger] after[k] == gates[k]
            &&& forall|k: int| 0 <= k < gates.len() ==> (#[trigger] after[k]).name == gates[k].name && after[k].required
                == gates[k].required
        }),
{
    let after = gate_set(gates, name, status, evidence, now);
    gate_index_found(gates, name);
    gate_index_found(gates, other);
    gate_index_is(after, other, gate_index(gates, other));
}

/// A job can complete exactly where it was approved and not interrupted, every required gate passed and
/// there is one, and every criterion is met and there is one.
pub proof fn completion_asks_for_everything(job: JobView)
    ensures
        job.completion_fault() is None <==> {
            &&& job.record.approved_at is Some
            &&& !job.record.interrupted
            &&& exists|i: int| 0 <= i < job.gates.len() && (#[trigger] job.gates[i]).required
            &&& forall|i: int| 0 <= i < job.gates.len() && (#[trigger] job.gates[i]).required ==> job.gates[i].status is Passed
            &&& job.criteria.len() > 0
            &&& forall|i: int| 0 <= i < job.criteria.len() ==> (#[trigger] job.criteria[i]).status is Verified
        },
{
}

/// Complete, blocked, failed and cancelled jobs are at their end, and of these the blocked and the failed
/// can be tried again; a job that is worked on, checked, fixed or reviewed is in flight.
pub proof fn states_have_one_meaning(state: JobState)
    ensures
        state.terminal() <==> state is Complete || state is Blocked || state is Failed || state is Cancelled,
        state.in_flight() <==> state is Working || state is Checking || state is Fixing || state is Reviewing,
        state.retriable() ==> state.terminal() && !(state is Complete) && !(state is Cancelled),
        state is Blocked || state is Failed ==> state.retriable() && state.may_become(JobState::Approved),
        state.in_flight() ==> !state.terminal(),
        state is Complete || state is Cancelled ==> !state.may_become(JobState::Approved),
        !state.terminal() ==> state.may_become(JobState::Blocked) && state.may_become(JobState::Cancelled),
{
}

} // verus!
