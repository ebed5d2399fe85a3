//! Requirements: the draft of a request, its clarification and the specification that follows.

use vstd::prelude::*;

use crate::jobs;
use crate::jobs::{AcceptanceCriterion, CriterionView, Job, JobError, JobState, JobView};
use crate::model;
use crate::paths;
use crate::project_config::ProjectConfig;
use crate::text;

verus! {

/// A question that has to be answered before work begins.
#[derive(Debug)]
pub struct ClarifyingQuestion {
    pub id: String,
    pub question: String,
    pub reason: String,
}

/// An answer to a question.
#[derive(Debug)]
pub struct ClarificationAnswer {
    pub question_id: String,
    pub answer: String,
    pub answered_at: u64,
}

/// What a request is taken to mean.
#[derive(Debug)]
pub struct RequirementsDraft {
    pub summary: String,
    pub clarifying_questions: Vec<ClarifyingQuestion>,
    pub proposed_acceptance_criteria: Vec<AcceptanceCriterion>,
    pub risks: Vec<String>,
    pub assumptions: Vec<String>,
}

/// A draft with the answers to its questions.
#[derive(Debug)]
pub struct RequirementsConversation {
    pub draft: RequirementsDraft,
    pub answers: Vec<ClarificationAnswer>,
    pub revisions: u32,
}

/// The content of a question.
pub struct QuestionView {
    pub id: Seq<char>,
    pub question: Seq<char>,
    pub reason: Seq<char>,
}

impl View for ClarifyingQuestion {
    type V = QuestionView;

    open spec fn view(&self) -> QuestionView {
        QuestionView { id: self.id@, question: self.question@, reason: self.reason@ }
    }
}

/// The content of an answer.
pub struct AnswerView {
    pub question_id: Seq<char>,
    pub answer: Seq<char>,
    pub answered_at: u64,
}

impl View for ClarificationAnswer {
    type V = AnswerView;

    open spec fn view(&self) -> AnswerView {
        AnswerView { question_id: self.question_id@, answer: self.answer@, answered_at: self.answered_at }
    }
}

/// The content of a draft.
pub struct DraftView {
    pub summary: Seq<char>,
    pub questions: Seq<QuestionView>,
    pub criteria: Seq<CriterionView>,
    pub risks: Seq<Seq<char>>,
    pub assumptions: Seq<Seq<char>>,
}

impl View for RequirementsDraft {
    type V = DraftView;

    open spec fn view(&self) -> DraftView {
        DraftView {
            summary: self.summary@,
            questions: model::views(self.clarifying_questions@),
            criteria: model::views(self.proposed_acceptance_criteria@),
            risks: text::texts(self.risks@),
            assumptions: text::texts(self.assumptions@),
        }
    }
}

/// The content of a draft with its answers.
pub struct ConversationView {
    pub draft: DraftView,
    pub answers: Seq<AnswerView>,
    pub revisions: u32,
}

impl View for RequirementsConversation {
    type V = ConversationView;

    open spec fn view(&self) -> ConversationView {
        ConversationView {
            draft: self.draft@,
            answers: model::views(self.answers@),
            revisions: self.revisions,
        }
    }
}

// ---------------------------------------------------------------------------
// Drafting
// ---------------------------------------------------------------------------

/// A request on one line, with a single space between each two words.
pub open spec fn normalized(request: Seq<char>) -> Seq<char> {
    text::joined(text::words_of(request), " "@)
}

/// A request as one sentence: its first 160 characters without final marks, with a full stop.
pub open spec fn summary_of(request: Seq<char>) -> Seq<char> {
    let bare = text::trim_end_of(text::trimmed(request), ".!?"@);
    if bare.len() == 0 {
        "Complete the requested change."@
    } else {
        text::first_chars(bare, 160) + "."@
    }
}

fn sentence_summary(request: &str) -> (summary: String)
    ensures
        summary@ == summary_of(request@),
{
    let bare = text::trim_end_matches(text::trim(request).as_str(), ".!?");
    if bare.as_str().is_empty() {
        return "Complete the requested change.".to_string();
    }
    text::take_chars(bare.as_str(), 160).concat(".")
}

/// Whether a request deletes something and does not say how.
pub open spec fn deletes_vaguely(lower: Seq<char>) -> bool {
    &&& text::holds(lower, "delet"@)
    &&& !text::holds(lower, "immediate"@)
    &&& !text::holds(lower, "delay"@)
    &&& !text::holds(lower, "soft delete"@)
    &&& !text::holds(lower, "recover"@)
}

/// Whether a request names a change and does not say by what it is known.
pub open spec fn changes_vaguely(lower: Seq<char>) -> bool {
    &&& "fix "@.is_prefix_of(lower) || "improve "@.is_prefix_of(lower) || "update "@.is_prefix_of(lower)
    &&& !text::holds(lower, "when "@)
    &&& !text::holds(lower, "must "@)
    &&& !text::holds(lower, "should "@)
}

/// The questions that a request leaves open.
pub open spec fn open_questions(summary: Seq<char>, lower: Seq<char>) -> Seq<QuestionView> {
    let topic = text::trim_end_of(summary, "."@);
    if deletes_vaguely(lower) {
        seq![
            QuestionView {
                id: "Q1"@,
                question: "For “"@ + topic + "”, should deletion be immediate or delayed/recoverable?"@,
                reason: "This changes persistence, recovery, and authentication behavior."@,
            },
        ]
    } else if changes_vaguely(lower) {
        seq![
            QuestionView {
                id: "Q1"@,
                question: "What observable behavior should prove “"@ + topic + "” is complete?"@,
                reason: "The request names a change but does not define a measurable outcome."@,
            },
        ]
    } else {
        Seq::empty()
    }
}

fn questions_for(summary: &str, lower: &str) -> (questions: Vec<ClarifyingQuestion>)
    ensures
        model::views(questions@) == open_questions(summary@, lower@),
{
    let mut questions: Vec<ClarifyingQuestion> = Vec::new();
    let topic = text::trim_end_matches(summary, ".");
    if text::contains(lower, "delet") && !text::contains(lower, "immediate") && !text::contains(lower, "delay")
        && !text::contains(lower, "soft delete") && !text::contains(lower, "recover") {
        questions.push(
            ClarifyingQuestion {
                id: "Q1".to_string(),
                question: "For “".to_string().concat(topic.as_str()).concat(
                    "”, should deletion be immediate or delayed/recoverable?",
                ),
                reason: "This changes persistence, recovery, and authentication behavior.".to_string(),
            },
        );
    } else if (text::starts_with(lower, "fix ") || text::starts_with(lower, "improve ") || text::starts_with(
        lower,
        "update ",
    )) && !text::contains(lower, "when ") && !text::contains(lower, "must ") && !text::contains(lower, "should ") {
        questions.push(
            ClarifyingQuestion {
                id: "Q1".to_string(),
                question: "What observable behavior should prove “".to_string().concat(topic.as_str()).concat(
                    "” is complete?",
                ),
                reason: "The request names a change but does not define a measurable outcome.".to_string(),
            },
        );
    }
    assert(model::views(questions@) =~= open_questions(summary@, lower@));
    questions
}

/// The criteria that are proposed for a request.
pub open spec fn proposed_criteria(summary: Seq<char>, checks: Seq<Seq<char>>, ui_enabled: bool, ui_category: Seq<char>) -> Seq<
    CriterionView,
> {
    let evidence = if checks.contains("unit"@) {
        "unit_test"@
    } else {
        "required_check"@
    };
    let base = seq![
        jobs::fresh_criterion("AC-1"@, "The requested behavior is implemented: "@ + summary, seq![evidence]),
        jobs::fresh_criterion("AC-2"@, "Every configured required check runs and passes."@, seq!["required_check"@]),
    ];
    if ui_enabled || checks.contains(ui_category) {
        base.push(
            jobs::fresh_criterion(
                "AC-3"@,
                "The configured browser flow passes without disallowed browser errors."@,
                seq!["browser_test"@],
            ),
        )
    } else {
        base
    }
}

fn one_text(only: &str) -> (list: Vec<String>)
    ensures
        text::texts(list@) == seq![only@],
{
    let list = vec![only.to_string()];
    assert(text::texts(list@) =~= seq![only@]);
    list
}

fn criteria_for(summary: &str, project: &ProjectConfig) -> (criteria: Vec<AcceptanceCriterion>)
    ensures
        model::views(criteria@) == proposed_criteria(
            summary@,
            text::texts(project.completion.required_checks@),
            project.ui.enabled,
            project.ui.test_command@,
        ),
{
    let unit = paths::holds_text(&project.completion.required_checks, "unit");
    let browser = project.ui.enabled || paths::holds_text(
        &project.completion.required_checks,
        project.ui.test_command.as_str(),
    );
    let described = "The requested behavior is implemented: ".to_string().concat(summary);
    let evidence = if unit {
        "unit_test"
    } else {
        "required_check"
    };
    let mut criteria: Vec<AcceptanceCriterion> = Vec::new();
    criteria.push(AcceptanceCriterion::new("AC-1", described.as_str(), one_text(evidence)));
    criteria.push(
        AcceptanceCriterion::new(
            "AC-2",
            "Every configured required check runs and passes.",
            one_text("required_check"),
        ),
    );
    if browser {
        criteria.push(
            AcceptanceCriterion::new(
                "AC-3",
                "The configured browser flow passes without disallowed browser errors.",
                one_text("browser_test"),
            ),
        );
    }
    assert(model::views(criteria@) =~= proposed_criteria(
        summary@,
        text::texts(project.completion.required_checks@),
        project.ui.enabled,
        project.ui.test_command@,
    ));
    criteria
}

/// The risks of a request.
pub open spec fn risks_of(lower: Seq<char>, ui_enabled: bool) -> Seq<Seq<char>> {
    let access = if text::holds(lower, "auth"@) || text::holds(lower, "login"@) || text::holds(lower, "account"@) {
        seq!["Authentication and authorization regressions require explicit test evidence."@]
    } else {
        Seq::empty()
    };
    let data = if text::holds(lower, "delete"@) || text::holds(lower, "migration"@) || text::holds(lower, "database"@) {
        seq!["Persistent data changes may be destructive or require a recovery strategy."@]
    } else {
        Seq::empty()
    };
    let browser = if ui_enabled {
        seq!["Browser behavior and console failures must be captured by the configured UI check."@]
    } else {
        Seq::empty()
    };
    access + data + browser
}

fn risks_for(lower: &str, ui_enabled: bool) -> (risks: Vec<String>)
    ensures
        text::texts(risks@) == risks_of(lower@, ui_enabled),
{
    let mut risks: Vec<String> = Vec::new();
    if text::contains(lower, "auth") || text::contains(lower, "login") || text::contains(lower, "account") {
        risks.push("Authentication and authorization regressions require explicit test evidence.".to_string());
    }
    if text::contains(lower, "delete") || text::contains(lower, "migration") || text::contains(lower, "database") {
        risks.push("Persistent data changes may be destructive or require a recovery strategy.".to_string());
    }
    if ui_enabled {
        risks.push("Browser behavior and console failures must be captured by the configured UI check.".to_string());
    }
    assert(text::texts(risks@) =~= risks_of(lower@, ui_enabled));
    risks
}

/// What is taken for granted about a job.
pub open spec fn assumptions_of(root: Seq<char>, checks: Seq<Seq<char>>) -> Seq<Seq<char>> {
    let place = match paths::name_of(root) {
        Some(name) => name,
        None => "the current workspace"@,
    };
    let confined = seq!["Work is confined to "@ + place + "."@];
    if checks.len() > 0 {
        confined.push("Approved required checks are: "@ + text::joined(checks, ", "@) + "."@)
    } else {
        confined
    }
}

fn assumptions_for(root: &str, checks: &Vec<String>) -> (assumptions: Vec<String>)
    ensures
        text::texts(assumptions@) == assumptions_of(root@, text::texts(checks@)),
{
    let place = match paths::file_name(root) {
        Some(name) => name,
        None => "the current workspace".to_string(),
    };
    let mut assumptions: Vec<String> = Vec::new();
    assumptions.push("Work is confined to ".to_string().concat(place.as_str()).concat("."));
    assert(text::texts(checks@).len() == checks@.len());
    if checks.len() > 0 {
        assumptions.push(
            "Approved required checks are: ".to_string().concat(text::join(checks, ", ").as_str()).concat("."),
        );
    }
    assert(text::texts(assumptions@) =~= assumptions_of(root@, text::texts(checks@)));
    assumptions
}

/// What a request is taken to mean in a project.
pub open spec fn drafted(request: Seq<char>, root: Seq<char>, project: ProjectConfig) -> DraftView {
    let checks = text::texts(project.completion.required_checks@);
    let summary = summary_of(normalized(request));
    let lower = text::lowered(normalized(request));
    DraftView {
        summary,
        questions: open_questions(summary, lower),
        criteria: proposed_criteria(summary, checks, project.ui.enabled, project.ui.test_command@),
        risks: risks_of(lower, project.ui.enabled),
        assumptions: assumptions_of(root, checks),
    }
}

/// What a request is taken to mean in the project at `root`.
pub fn draft(request: &str, root: &str, project: &ProjectConfig) -> (draft: RequirementsDraft)
    ensures
        draft@ == drafted(request@, root@, *project),
{
    let words = text::words(request);
    let whole = text::join(&words, " ");
    let summary = sentence_summary(whole.as_str());
    let lower = text::lower(whole.as_str());
    let clarifying_questions = questions_for(summary.as_str(), lower.as_str());
    let proposed_acceptance_criteria = criteria_for(summary.as_str(), project);
    let risks = risks_for(lower.as_str(), project.ui.enabled);
    let assumptions = assumptions_for(root, &project.completion.required_checks);
    RequirementsDraft { summary, clarifying_questions, proposed_acceptance_criteria, risks, assumptions }
}

/// Why a draft is not acceptable.
#[derive(Debug, Clone, Copy, PartialEq, Eq, Structural)]
pub enum DraftError {
    Empty,
    Incomplete,
}

impl DraftError {
    /// The message of the error.
    pub open spec fn text(self) -> Seq<char> {
        match self {
            DraftError::Empty => "requirements planner returned an empty summary or no criteria"@,
            DraftError::Incomplete => "requirements planner returned an incomplete acceptance criterion"@,
        }
    }

    /// The message of the error.
    pub fn message(&self) -> (message: String)
        ensures
            message@ == self.text(),
    {
        match self {
            DraftError::Empty => "requirements planner returned an empty summary or no criteria".to_string(),
            DraftError::Incomplete => "requirements planner returned an incomplete acceptance criterion".to_string(),
        }
    }
}

/// Whether a criterion has an id, a description and evidence to look for.
pub open spec fn complete(criterion: CriterionView) -> bool {
    !text::blank(criterion.id) && !text::blank(criterion.description) && criterion.required_evidence.len() > 0
}

/// Why a draft is not acceptable, where it is not.
pub open spec fn draft_fault(draft: DraftView) -> Option<DraftError> {
    if text::blank(draft.summary) || draft.criteria.len() == 0 {
        Some(DraftError::Empty)
    } else if exists|i: int| 0 <= i < draft.criteria.len() && !complete(#[trigger] draft.criteria[i]) {
        Some(DraftError::Incomplete)
    } else {
        None
    }
}

/// Accepts a draft that says something, with criteria that are complete.
pub fn validate_draft(draft: &RequirementsDraft) -> (result: Result<(), DraftError>)
    ensures
        match draft_fault(draft@) {
            None => result is Ok,
            Some(fault) => result == Err::<(), DraftError>(fault),
        },
{
    let criteria = &draft.proposed_acceptance_criteria;
    if text::is_blank(draft.summary.as_str()) || criteria.len() == 0 {
        return Err(DraftError::Empty);
    }
    let ghost all = draft@.criteria;
    let mut at: usize = 0;
    while at < criteria.len()
        invariant
            at <= criteria@.len(),
            all == model::views(criteria@),
            all == draft@.criteria,
            !text::blank(draft@.summary),
            all.len() > 0,
            forall|i: int| 0 <= i < at ==> complete(#[trigger] all[i]),
        decreases criteria@.len() - at,
    {
        assert(all[at as int] == criteria@[at as int]@);
        assert(text::texts(criteria@[at as int].required_evidence@).len() == criteria@[at as int].required_evidence@.len());
        if text::is_blank(criteria[at].id.as_str()) || text::is_blank(criteria[at].description.as_str())
            || criteria[at].required_evidence.len() == 0 {
            return Err(DraftError::Incomplete);
        }
        at = at + 1;
    }
    Ok(())
}

// ---------------------------------------------------------------------------
// Clarification
// ---------------------------------------------------------------------------

/// Whether a question has an answer.
pub open spec fn answered(answers: Seq<AnswerView>, id: Seq<char>) -> bool {
    exists|i: int| 0 <= i < answers.len() && (#[trigger] answers[i]).question_id == id
}

/// The position of the first question without an answer, or the number of questions where all
/// have one.
pub open spec fn open_index(questions: Seq<QuestionView>, answers: Seq<AnswerView>) -> int
    decreases questions.len(),
{
    if questions.len() == 0 || !answered(answers, questions.first().id) {
        0
    } else {
        1 + open_index(questions.drop_first(), answers)
    }
}

/// The position that `open_index` finds is that of the first question without an answer.
pub proof fn open_index_is(questions: Seq<QuestionView>, answers: Seq<AnswerView>, k: int)
    requires
        0 <= k <= questions.len(),
        forall|i: int| 0 <= i < k ==> answered(answers, (#[trigger] questions[i]).id),
        k < questions.len() ==> !answered(answers, questions[k].id),
    ensures
        open_index(questions, answers) == k,
    decreases k,
{
    if k > 0 {
        assert(answered(answers, questions[0].id));
        let rest = questions.drop_first();
        assert forall|i: int| 0 <= i < k - 1 implies answered(answers, (#[trigger] rest[i]).id) by {
            assert(rest[i] == questions[i + 1]);
        }
        open_index_is(rest, answers, k - 1);
    }
}

/// What `open_index` finds.
pub proof fn open_index_found(questions: Seq<QuestionView>, answers: Seq<AnswerView>)
    ensures
        0 <= open_index(questions, answers) <= questions.len(),
        open_index(questions, answers) < questions.len() ==> !answered(
            answers,
            questions[open_index(questions, answers)].id,
        ),
        forall|i: int| 0 <= i < open_index(questions, answers) ==> answered(answers, (#[trigger] questions[i]).id),
    decreases questions.len(),
{
    if questions.len() > 0 && answered(answers, questions.first().id) {
        let rest = questions.drop_first();
        open_index_found(rest, answers);
        assert forall|i: int| 0 <= i < open_index(questions, answers) implies answered(answers, (#[trigger] questions[i]).id) by {
            if i > 0 {
                assert(rest[i - 1] == questions[i]);
            }
        }
    }
}

impl ConversationView {
    /// The first question without an answer, where there is one.
    pub open spec fn next(self) -> Option<QuestionView> {
        let i = open_index(self.draft.questions, self.answers);
        if i < self.draft.questions.len() {
            Some(self.draft.questions[i])
        } else {
            None
        }
    }
}

fn is_answered(answers: &Vec<ClarificationAnswer>, id: &str) -> (answer: bool)
    ensures
        answer == answered(model::views(answers@), id@),
{
    let ghost all = model::views(answers@);
    let mut at: usize = 0;
    while at < answers.len()
        invariant
            at <= answers@.len(),
            all == model::views(answers@),
            forall|i: int| 0 <= i < at ==> (#[trigger] all[i]).question_id != id@,
        decreases answers@.len() - at,
    {
        assert(all[at as int] == answers@[at as int]@);
        if text::same(answers[at].question_id.as_str(), id) {
            return true;
        }
        at = at + 1;
    }
    false
}

/// The first question without an answer, where there is one.
pub fn next_question(conversation: &RequirementsConversation) -> (question: Option<&ClarifyingQuestion>)
    ensures
        match question {
            Some(question) => conversation@.next() == Some(question@),
            None => conversation@.next() is None,
        },
{
    let questions = &conversation.draft.clarifying_questions;
    let ghost all = model::views(questions@);
    let mut at: usize = 0;
    while at < questions.len()
        invariant
            at <= questions@.len(),
            all == model::views(questions@),
            questions@ == conversation.draft.clarifying_questions@,
            forall|i: int| 0 <= i < at ==> answered(conversation@.answers, (#[trigger] all[i]).id),
        decreases questions@.len() - at,
    {
        assert(all[at as int] == questions@[at as int]@);
        if !is_answered(&conversation.answers, questions[at].id.as_str()) {
            proof {
                open_index_is(all, conversation@.answers, at as int);
            }
            return Some(&questions[at]);
        }
        at = at + 1;
    }
    proof {
        open_index_is(all, conversation@.answers, at as int);
    }
    None
}

// ---------------------------------------------------------------------------
// Texts
// ---------------------------------------------------------------------------

/// How an answer is shown in a specification.
pub open spec fn answer_line(answer: AnswerView) -> Seq<char> {
    "- "@ + answer.question_id + ": "@ + answer.answer
}

/// How a criterion is shown in a specification.
pub open spec fn criterion_line(criterion: CriterionView) -> Seq<char> {
    "- "@ + criterion.id + ": "@ + criterion.description + " (evidence: "@ + text::joined(
        criterion.required_evidence,
        ", "@,
    ) + ")"@
}

/// The answers, as a specification shows them.
pub open spec fn answers_text(answers: Seq<AnswerView>) -> Seq<char> {
    if answers.len() == 0 {
        "No clarification was required."@
    } else {
        text::joined(Seq::new(answers.len(), |i: int| answer_line(answers[i])), "\n"@)
    }
}

/// The criteria, as a specification shows them.
pub open spec fn criteria_text(criteria: Seq<CriterionView>) -> Seq<char> {
    text::joined(Seq::new(criteria.len(), |i: int| criterion_line(criteria[i])), "\n"@)
}

/// The risks, as a specification shows them.
pub open spec fn risks_text(risks: Seq<Seq<char>>) -> Seq<char> {
    let lines = text::bulleted(risks);
    if lines.len() == 0 {
        "- None identified."@
    } else {
        lines
    }
}

/// The specification that follows from a draft and its answers.
pub open spec fn specification_text(conversation: ConversationView) -> Seq<char> {
    "# Proposed job specification\n\n## Summary\n\n"@ + conversation.draft.summary
        + "\n\n## Clarification answers\n\n"@ + answers_text(conversation.answers) + "\n\n## Acceptance criteria\n\n"@
        + criteria_text(conversation.draft.criteria) + "\n\n## Assumptions\n\n"@ + text::bulleted(
        conversation.draft.assumptions,
    ) + "\n\n## Risks\n\n"@ + risks_text(conversation.draft.risks) + "\n"@
}

fn render_answers(answers: &Vec<ClarificationAnswer>) -> (result: String)
    ensures
        result@ == answers_text(model::views(answers@)),
{
    if answers.len() == 0 {
        return "No clarification was required.".to_string();
    }
    let ghost all = model::views(answers@);
    let mut lines: Vec<String> = Vec::new();
    let mut at: usize = 0;
    while at < answers.len()
        invariant
            at <= answers@.len(),
            all == model::views(answers@),
            lines@.len() == at,
            forall|i: int| 0 <= i < at ==> (#[trigger] lines@[i])@ == answer_line(all[i]),
        decreases answers@.len() - at,
    {
        assert(all[at as int] == answers@[at as int]@);
        lines.push(
            "- ".to_string().concat(answers[at].question_id.as_str()).concat(": ").concat(answers[at].answer.as_str()),
        );
        at = at + 1;
    }
    assert(text::texts(lines@) =~= Seq::new(all.len(), |i: int| answer_line(all[i])));
    text::join(&lines, "\n")
}

fn render_criteria(criteria: &Vec<AcceptanceCriterion>) -> (result: String)
    ensures
        result@ == criteria_text(model::views(criteria@)),
{
    let ghost all = model::views(criteria@);
    let mut lines: Vec<String> = Vec::new();
    let mut at: usize = 0;
    while at < criteria.len()
        invariant
            at <= criteria@.len(),
            all == model::views(criteria@),
            lines@.len() == at,
            forall|i: int| 0 <= i < at ==> (#[trigger] lines@[i])@ == criterion_line(all[i]),
        decreases criteria@.len() - at,
    {
        assert(all[at as int] == criteria@[at as int]@);
        let criterion = &criteria[at];
        lines.push(
            "- ".to_string().concat(criterion.id.as_str()).concat(": ").concat(criterion.description.as_str()).concat(
                " (evidence: ",
            ).concat(text::join(&criterion.required_evidence, ", ").as_str()).concat(")"),
        );
        at = at + 1;
    }
    assert(text::texts(lines@) =~= Seq::new(all.len(), |i: int| criterion_line(all[i])));
    text::join(&lines, "\n")
}

/// The specification that follows from a draft and its answers.
pub fn render_specification(conversation: &RequirementsConversation) -> (specification: String)
    ensures
        specification@ == specification_text(conversation@),
{
    let answers = render_answers(&conversation.answers);
    let criteria = render_criteria(&conversation.draft.proposed_acceptance_criteria);
    let assumptions = text::bullets(&conversation.draft.assumptions);
    let listed = text::bullets(&conversation.draft.risks);
    let risks = if listed.as_str().is_empty() {
        "- None identified.".to_string()
    } else {
        listed
    };
    "# Proposed job specification\n\n## Summary\n\n".to_string().concat(conversation.draft.summary.as_str()).concat(
        "\n\n## Clarification answers\n\n",
    ).concat(answers.as_str()).concat("\n\n## Acceptance criteria\n\n").concat(criteria.as_str()).concat(
        "\n\n## Assumptions\n\n",
    ).concat(assumptions.as_str()).concat("\n\n## Risks\n\n").concat(risks.as_str()).concat("\n")
}

/// How a criterion is shown to the sender of a request.
pub open spec fn offered_criterion(criterion: CriterionView) -> Seq<char> {
    criterion.id + ": "@ + criterion.description + " [required evidence: "@ + text::joined(
        criterion.required_evidence,
        ", "@,
    ) + "]"@
}

/// What the sender of a request is told: the next question, or the criteria to approve.
pub open spec fn message_for(job_id: Seq<char>, conversation: ConversationView) -> Seq<char> {
    match conversation.next() {
        Some(question) => question.id + " — "@ + question.question + "\nReason: "@ + question.reason,
        None => "Proposed specification for "@ + job_id + ":\n\n"@ + text::joined(
            Seq::new(conversation.draft.criteria.len(), |i: int| offered_criterion(conversation.draft.criteria[i])),
            "\n"@,
        ) + "\n\nReply APPROVE to begin. No worker or project check will run before approval."@,
    }
}

/// What the sender of a request is told: the next question, or the criteria to approve.
pub fn user_message(job: &Job, conversation: &RequirementsConversation) -> (message: String)
    ensures
        message@ == message_for(job@.record.id, conversation@),
{
    if let Some(question) = next_question(conversation) {
        return question.id.clone().concat(" — ").concat(question.question.as_str()).concat("\nReason: ").concat(
            question.reason.as_str(),
        );
    }
    let criteria = &conversation.draft.proposed_acceptance_criteria;
    let ghost all = conversation@.draft.criteria;
    let mut lines: Vec<String> = Vec::new();
    let mut at: usize = 0;
    while at < criteria.len()
        invariant
            at <= criteria@.len(),
            all == model::views(criteria@),
            lines@.len() == at,
            forall|i: int| 0 <= i < at ==> (#[trigger] lines@[i])@ == offered_criterion(all[i]),
        decreases criteria@.len() - at,
    {
        assert(all[at as int] == criteria@[at as int]@);
        let criterion = &criteria[at];
        lines.push(
            criterion.id.clone().concat(": ").concat(criterion.description.as_str()).concat(" [required evidence: ").concat(
                text::join(&criterion.required_evidence, ", ").as_str(),
            ).concat("]"),
        );
        at = at + 1;
    }
    assert(text::texts(lines@) =~= Seq::new(all.len(), |i: int| offered_criterion(all[i])));
    "Proposed specification for ".to_string().concat(job.record.id.as_str()).concat(":\n\n").concat(
        text::join(&lines, "\n").as_str(),
    ).concat("\n\nReply APPROVE to begin. No worker or project check will run before approval.")
}

// ---------------------------------------------------------------------------
// Progress of a job
// ---------------------------------------------------------------------------

/// A job with a new conversation: put up for approval where nothing is open, else waiting, with a
/// message, for an answer.
pub open spec fn advanced(job: JobView, conversation: ConversationView, open: bool, waiting: Seq<char>, now: u64) -> JobView {
    let kept = JobView { requirements: Some(conversation), ..job };
    if open {
        kept.attempted(JobState::Clarifying, waiting, now)
    } else {
        kept.specified(specification_text(conversation), conversation.draft.criteria).attempted(
            JobState::AwaitingApproval,
            "Specification is ready for approval"@,
            now,
        )
    }
}

/// A draft without answers.
pub open spec fn unanswered(draft: DraftView) -> ConversationView {
    ConversationView { draft, answers: Seq::empty(), revisions: 1 }
}

/// A job after its draft was stored.
pub open spec fn begun(job: JobView, draft: DraftView, now: u64) -> JobView {
    advanced(
        job,
        unanswered(draft),
        draft.questions.len() > 0,
        "Waiting for answer to "@ + draft.questions[0].id,
        now,
    )
}

fn finalize(job: &mut Job, conversation: &RequirementsConversation, now: u64) -> (result: Result<(), JobError>)
    ensures
        final(job)@ == old(job)@.specified(specification_text(conversation@), conversation@.draft.criteria).attempted(
            JobState::AwaitingApproval,
            "Specification is ready for approval"@,
            now,
        ),
        result is Ok <==> old(job)@.record.state.may_become(JobState::AwaitingApproval),
        result matches Err(error) ==> error.text() == jobs::terminal_text(old(job)@.record.id),
{
    let specification = render_specification(conversation);
    job.set_specification(specification.as_str(), &conversation.draft.proposed_acceptance_criteria, now)
}

/// Stores a draft, then asks its first question or puts the specification up for approval.
pub fn persist_and_transition(job: &mut Job, draft: RequirementsDraft, now: u64) -> (result: Result<(), JobError>)
    ensures
        final(job)@ == begun(old(job)@, draft@, now),
        result is Ok <==> !old(job)@.record.state.terminal(),
        result matches Err(error) ==> error.text() == jobs::terminal_text(old(job)@.record.id),
{
    let ghost wanted = draft@;
    let conversation = RequirementsConversation { draft, answers: Vec::new(), revisions: 1 };
    assert(conversation@.answers =~= Seq::empty());
    let asks = conversation.draft.clarifying_questions.len() > 0;
    let result = if asks {
        let waiting = "Waiting for answer to ".to_string().concat(conversation.draft.clarifying_questions[0].id.as_str());
        job.transition(JobState::Clarifying, waiting.as_str(), now)
    } else {
        finalize(job, &conversation, now)
    };
    job.requirements = Some(conversation);
    result
}

/// Drafts the requirements of a job, then asks the first question or puts the specification up for
/// approval.
pub fn start(job: &mut Job, root: &str, project: &ProjectConfig, now: u64) -> (result: Result<(), JobError>)
    ensures
        final(job)@ == begun(old(job)@, drafted(old(job)@.request, root@, *project), now),
        result is Ok <==> !old(job)@.record.state.terminal(),
        result matches Err(error) ==> error.text() == jobs::terminal_text(old(job)@.record.id),
{
    let planned = draft(job.request.as_str(), root, project);
    persist_and_transition(job, planned, now)
}

/// What a model is asked to plan.
pub open spec fn planner_prompt(request: Seq<char>, checks: Seq<Seq<char>>, repository: Option<Seq<char>>) -> Seq<char> {
    "Draft concise, task-specific software requirements in the supplied JSON schema. Ask only materially useful questions that cannot be answered from the repository. Zero questions is valid. Do not expose hidden reasoning. Proposed criteria must name required evidence types such as unit_test, browser_test, lint, build, required_check, or manual.\n\nRequest:\n"@
        + request + "\n\nApproved checks:\n"@ + text::joined(checks, ", "@) + "\n\nRepository files:\n"@ + match repository {
        Some(files) => files,
        None => "Repository scan unavailable."@,
    }
}

/// Starts a job by the rules of its project: drafts its requirements at once, or returns what a
/// model has to be asked, and leaves the job as it is.
pub fn start_configured(
    job: &mut Job,
    root: &str,
    project: &ProjectConfig,
    repository: Option<&str>,
    now: u64,
) -> (result: Result<Option<String>, JobError>)
    ensures
        if project.requirements.use_primary_model {
            &&& *final(job) == *old(job)
            &&& result matches Ok(Some(prompt)) && prompt@ == planner_prompt(
                old(job)@.request,
                text::texts(project.completion.required_checks@),
                model::view_of(repository),
            )
        } else {
            &&& final(job)@ == begun(old(job)@, drafted(old(job)@.request, root@, *project), now)
            &&& if old(job)@.record.state.terminal() {
                result is Err && result->Err_0.text() == jobs::terminal_text(old(job)@.record.id)
            } else {
                result matches Ok(None)
            }
        },
{
    if !project.requirements.use_primary_model {
        return match start(job, root, project, now) {
            Ok(_) => Ok(None),
            Err(error) => Err(error),
        };
    }
    let files = match repository {
        Some(files) => files.to_string(),
        None => "Repository scan unavailable.".to_string(),
    };
    let prompt = "Draft concise, task-specific software requirements in the supplied JSON schema. Ask only materially useful questions that cannot be answered from the repository. Zero questions is valid. Do not expose hidden reasoning. Proposed criteria must name required evidence types such as unit_test, browser_test, lint, build, required_check, or manual.\n\nRequest:\n".to_string().concat(
        job.request.as_str(),
    ).concat("\n\nApproved checks:\n").concat(text::join(&project.completion.required_checks, ", ").as_str()).concat(
        "\n\nRepository files:\n",
    ).concat(files.as_str());
    Ok(Some(prompt))
}

/// Why a plan is not taken.
#[derive(Debug)]
pub enum PlanError {
    Draft(DraftError),
    Job(JobError),
}

/// Takes the draft that a model planned, where it is acceptable.
pub fn take_plan(job: &mut Job, draft: RequirementsDraft, now: u64) -> (result: Result<(), PlanError>)
    ensures
        match draft_fault(draft@) {
            Some(fault) => result == Err::<(), PlanError>(PlanError::Draft(fault)) && *final(job) == *old(job),
            None => {
                &&& final(job)@ == begun(old(job)@, draft@, now)
                &&& if old(job)@.record.state.terminal() {
                    result matches Err(PlanError::Job(error)) && error.text() == jobs::terminal_text(old(job)@.record.id)
                } else {
                    result is Ok
                }
            },
        },
{
    if let Err(fault) = validate_draft(&draft) {
        return Err(PlanError::Draft(fault));
    }
    match persist_and_transition(job, draft, now) {
        Ok(_) => Ok(()),
        Err(error) => Err(PlanError::Job(error)),
    }
}

/// A conversation after the next question was answered.
pub open spec fn replied(conversation: ConversationView, answer: Seq<char>, now: u64) -> ConversationView {
    ConversationView {
        answers: conversation.answers.push(
            AnswerView { question_id: conversation.next()->0.id, answer: text::trimmed(answer), answered_at: now },
        ),
        revisions: (conversation.revisions + 1) as u32,
        ..conversation
    }
}

/// Answers the next question of a job, then waits for the next answer or puts the specification up
/// for approval.
pub fn answer(job: &mut Job, given: &str, now: u64) -> (result: Result<(), JobError>)
    requires
        old(job)@.requirements matches Some(conversation) ==> conversation.revisions < u32::MAX,
    ensures
        match old(job)@.requirements {
            None => {
                &&& *final(job) == *old(job)
                &&& result is Err
                &&& result->Err_0.text() == "invalid "@ + paths::joined_path(old(job)@.root, "requirements.json"@)
            },
            Some(conversation) => if conversation.next() is None {
                final(job)@ == old(job)@ && result is Err && result->Err_0 is NoOpenQuestion
            } else {
                &&& final(job)@ == advanced(
                    old(job)@,
                    replied(conversation, given@, now),
                    replied(conversation, given@, now).next() is Some,
                    "Waiting for another clarification answer"@,
                    now,
                )
                &&& result is Ok <==> !old(job)@.record.state.terminal()
                &&& result matches Err(error) ==> error.text() == jobs::terminal_text(old(job)@.record.id)
            },
        },
{
    let ghost start = job@;
    match job.requirements.take() {
        None => {
            job.requirements = None;
            Err(JobError::InvalidFile(job.path("requirements.json")))
        },
        Some(mut conversation) => {
            let ghost before = conversation@;
            let question_id = match next_question(&conversation) {
                Some(question) => question.id.clone(),
                None => {
                    job.requirements = Some(conversation);
                    return Err(JobError::NoOpenQuestion);
                },
            };
            let reply = ClarificationAnswer { question_id, answer: text::trim(given), answered_at: now };
            let ghost listed = conversation.answers@;
            conversation.answers.push(reply);
            assert(model::views(conversation.answers@) =~= model::views(listed).push(reply@));
            conversation.revisions = conversation.revisions + 1;
            assert(conversation@ == replied(before, given@, now));
            let open = next_question(&conversation).is_some();
            let result = if open {
                job.transition(JobState::Clarifying, "Waiting for another clarification answer", now)
            } else {
                finalize(job, &conversation, now)
            };
            job.requirements = Some(conversation);
            result
        },
    }
}

// ---------------------------------------------------------------------------
// What always holds
// ---------------------------------------------------------------------------

/// Every draft of this library is acceptable.
pub proof fn drafts_are_acceptable(request: Seq<char>, root: Seq<char>, project: ProjectConfig)
    ensures
        draft_fault(drafted(request, root, project)) is None,
{
    let draft = drafted(request, root, project);
    let bare = text::trim_end_of(text::trimmed(normalized(request)), ".!?"@);
    reveal_strlit("Complete the requested change.");
    reveal_strlit(".");
    if bare.len() == 0 {
        assert(!text::white(draft.summary[0]));
    } else {
        assert(draft.summary.last() == '.');
        assert(!text::white(draft.summary[draft.summary.len() - 1]));
    }
    text::lemma_blank(draft.summary);
    reveal_strlit("AC-1");
    reveal_strlit("AC-2");
    reveal_strlit("AC-3");
    reveal_strlit("The requested behavior is implemented: ");
    reveal_strlit("Every configured required check runs and passes.");
    reveal_strlit("The configured browser flow passes without disallowed browser errors.");
    assert forall|i: int| 0 <= i < draft.criteria.len() implies complete(#[trigger] draft.criteria[i]) by {
        let criterion = draft.criteria[i];
        text::lemma_blank(criterion.id);
        assert(criterion.id[0] == 'A');
        text::lemma_blank(criterion.description);
        assert(criterion.description[0] == 'T' || criterion.description[0] == 'E');
    }
}

/// An answer settles the question that it was given to: that question is not asked again, and the
/// questions that had an answer keep it.
pub proof fn answers_settle_questions(conversation: ConversationView, answer: Seq<char>, now: u64)
    requires
        conversation.next() is Some,
    ensures
        replied(conversation, answer, now).next() != conversation.next(),
        open_index(conversation.draft.questions, replied(conversation, answer, now).answers) > open_index(
            conversation.draft.questions,
            conversation.answers,
        ),
{
    let questions = conversation.draft.questions;
    let after = replied(conversation, answer, now);
    let i = open_index(questions, conversation.answers);
    let j = open_index(questions, after.answers);
    open_index_found(questions, conversation.answers);
    open_index_found(questions, after.answers);
    assert(after.answers[after.answers.len() - 1].question_id == questions[i].id);
    assert(answered(after.answers, questions[i].id));
    assert forall|k: int| 0 <= k <= i implies answered(after.answers, (#[trigger] questions[k]).id) by {
        if k < i {
            let w = choose|w: int|
                0 <= w < conversation.answers.len() && (#[trigger] conversation.answers[w]).question_id == questions[k].id;
            assert(after.answers[w] == conversation.answers[w]);
        }
    }
    if after.next() == conversation.next() {
        assert(questions[j].id == questions[i].id);
    }
}

/// Whether a request has the word at its start, in whichever case, and more behind it.
pub open spec fn opens_with(request: Seq<char>, word: Seq<char>) -> bool {
    text::words_of(request).len() > 1 && text::lowered(text::words_of(request)[0]) == word
}

/// Whether a request, in small letters and with single spaces, holds a piece of text.
pub open spec fn mentions(request: Seq<char>, piece: Seq<char>) -> bool {
    text::holds(text::lowered(text::joined(text::words_of(request), " "@)), piece)
}

proof fn first_words_are_prefixes(request: Seq<char>, word: Seq<char>, spaced: Seq<char>)
    requires
        spaced == word + " "@,
        forall|k: int| 0 <= k < word.len() ==> #[trigger] word[k] != ' ',
    ensures
        spaced.is_prefix_of(text::lowered(text::joined(text::words_of(request), " "@))) <==> opens_with(request, word),
{
    let words = text::words_of(request);
    let whole = text::joined(words, " "@);
    let lower = text::lowered(whole);
    reveal_strlit(" ");
    assert(text::lower_char(' ') == ' ');
    if words.len() > 0 {
        text::joined_texts_are_held(words, " "@, 0);
        text::words_are_solid(request, 0);
        let first = words[0];
        assert forall|k: int| 0 <= k < first.len() implies #[trigger] text::lowered(first)[k] != ' ' by {
            assert(!text::white(words[0][k]));
            assert(text::white(' '));
        }
        assert forall|k: int| 0 <= k < first.len() implies #[trigger] lower[k] == text::lowered(first)[k] by {
            assert(first == whole.subrange(0, first.len() as int));
            assert(whole.subrange(0, first.len() as int)[k] == whole[k]);
        }
        if words.len() > 1 {
            let start = first + " "@;
            assert(start == whole.subrange(0, start.len() as int));
            assert(whole.subrange(0, start.len() as int)[first.len() as int] == whole[first.len() as int]);
            assert(lower[first.len() as int] == ' ');
            if opens_with(request, word) {
                assert(spaced =~= lower.subrange(0, spaced.len() as int));
            }
        }
        if spaced.is_prefix_of(lower) {
            assert forall|k: int| 0 <= k < spaced.len() implies #[trigger] spaced[k] == lower[k] by {
                assert(lower.subrange(0, spaced.len() as int)[k] == lower[k]);
            }
            assert(spaced[word.len() as int] == ' ');
            assert(lower[word.len() as int] == ' ');
            if words.len() == 1 {
                assert(whole == first);
                assert(text::lowered(first)[word.len() as int] != ' ');
            } else if first.len() < word.len() {
                assert(word[first.len() as int] == spaced[first.len() as int]);
            } else if first.len() > word.len() {
                assert(text::lowered(first)[word.len() as int] != ' ');
            } else {
                assert forall|k: int| 0 <= k < word.len() implies text::lowered(first)[k] == word[k] by {
                    assert(spaced[k] == lower[k]);
                    assert(word[k] == spaced[k]);
                }
                assert(text::lowered(first) =~= word);
            }
        }
    } else {
        assert(lower.len() == 0);
        assert(spaced.len() > 0);
    }
}

proof fn words_of_change(request: Seq<char>)
    ensures
        ({
            let lower = text::lowered(normalized(request));
            &&& "fix "@.is_prefix_of(lower) <==> opens_with(request, "fix"@)
            &&& "improve "@.is_prefix_of(lower) <==> opens_with(request, "improve"@)
            &&& "update "@.is_prefix_of(lower) <==> opens_with(request, "update"@)
        }),
{
    reveal_strlit(" ");
    reveal_strlit("fix");
    reveal_strlit("fix ");
    reveal_strlit("improve");
    reveal_strlit("improve ");
    reveal_strlit("update");
    reveal_strlit("update ");
    assert("fix "@ =~= "fix"@ + " "@);
    assert("improve "@ =~= "improve"@ + " "@);
    assert("update "@ =~= "update"@ + " "@);
    first_words_are_prefixes(request, "fix"@, "fix "@);
    first_words_are_prefixes(request, "improve"@, "improve "@);
    first_words_are_prefixes(request, "update"@, "update "@);
}

/// A request whose first word is fix, improve or update, and that neither says when, must or should nor
/// speaks of a deletion, is drafted with one question, by what its completion is known; and its job
/// waits for the answer.
pub proof fn vague_changes_are_asked_about(request: Seq<char>, root: Seq<char>, project: ProjectConfig, job: JobView, now: u64)
    requires
        opens_with(request, "fix"@) || opens_with(request, "improve"@) || opens_with(request, "update"@),
        !mentions(request, "when "@),
        !mentions(request, "must "@),
        !mentions(request, "should "@),
        !mentions(request, "delet"@),
        !job.record.state.terminal(),
    ensures
        ({
            let draft = drafted(request, root, project);
            let after = begun(job, draft, now);
            &&& draft.questions.len() == 1
            &&& draft.questions[0].id == "Q1"@
            &&& draft.questions[0].question == "What observable behavior should prove “"@ + text::trim_end_of(
                draft.summary,
                "."@,
            ) + "” is complete?"@
            &&& draft.questions[0].reason == "The request names a change but does not define a measurable outcome."@
            &&& after.record.state is Clarifying
            &&& after.record.message == "Waiting for answer to "@ + "Q1"@
            &&& after.specification == job.specification
            &&& after.requirements is Some && after.requirements->0.next() == Some(draft.questions[0])
        }),
{
    words_of_change(request);
    let draft = drafted(request, root, project);
    open_index_is(draft.questions, Seq::empty(), 0);
}

/// A request that deletes something, and says nothing of an immediate, delayed, soft or recoverable
/// deletion, is drafted with one question, which of them is meant; and its job waits for the answer.
pub proof fn vague_deletions_are_asked_about(
    request: Seq<char>,
    root: Seq<char>,
    project: ProjectConfig,
    job: JobView,
    now: u64,
)
    requires
        mentions(request, "delet"@),
        !mentions(request, "immediate"@),
        !mentions(request, "delay"@),
        !mentions(request, "soft delete"@),
        !mentions(request, "recover"@),
        !job.record.state.terminal(),
    ensures
        ({
            let draft = drafted(request, root, project);
            let after = begun(job, draft, now);
            &&& draft.questions.len() == 1
            &&& draft.questions[0].id == "Q1"@
            &&& draft.questions[0].question == "For “"@ + text::trim_end_of(draft.summary, "."@)
                + "”, should deletion be immediate or delayed/recoverable?"@
            &&& draft.questions[0].reason == "This changes persistence, recovery, and authentication behavior."@
            &&& after.record.state is Clarifying
            &&& after.record.message == "Waiting for answer to "@ + "Q1"@
            &&& after.specification == job.specification
            &&& after.requirements is Some && after.requirements->0.next() == Some(draft.questions[0])
        }),
{
    let draft = drafted(request, root, project);
    open_index_is(draft.questions, Seq::empty(), 0);
}

/// Every other request is drafted without a question, and its job is put up for approval with a
/// specification.
pub proof fn clear_requests_are_not_asked_about(
    request: Seq<char>,
    root: Seq<char>,
    project: ProjectConfig,
    job: JobView,
    now: u64,
)
    requires
        !mentions(request, "delet"@) || mentions(request, "immediate"@) || mentions(request, "delay"@) || mentions(
            request,
            "soft delete"@,
        ) || mentions(request, "recover"@),
        !opens_with(request, "fix"@) && !opens_with(request, "improve"@) && !opens_with(request, "update"@) || mentions(
            request,
            "when "@,
        ) || mentions(request, "must "@) || mentions(request, "should "@),
        !job.record.state.terminal(),
    ensures
        ({
            let draft = drafted(request, root, project);
            let after = begun(job, draft, now);
            &&& draft.questions.len() == 0
            &&& after.record.state is AwaitingApproval
            &&& after.criteria == draft.criteria
            &&& text::holds(after.specification, "No clarification was required."@)
            &&& text::holds(after.specification, draft.summary)
        }),
{
    words_of_change(request);
    let draft = drafted(request, root, project);
    specifications_hold_what_was_agreed(unanswered(draft), 0);
    let answers = Seq::<AnswerView>::empty();
    assert(answers_text(answers) == "No clarification was required."@);
}

/// A specification holds the summary, each answer with its question, each criterion with its id,
/// description and evidence, each assumption and each risk.
pub proof fn specifications_hold_what_was_agreed(conversation: ConversationView, i: int)
    ensures
        ({
            let shown = specification_text(conversation);
            let draft = conversation.draft;
            &&& text::holds(shown, draft.summary)
            &&& conversation.answers.len() == 0 ==> text::holds(shown, "No clarification was required."@)
            &&& 0 <= i < conversation.answers.len() ==> text::holds(
                shown,
                "- "@ + conversation.answers[i].question_id + ": "@ + conversation.answers[i].answer,
            )
            &&& 0 <= i < draft.criteria.len() ==> text::holds(
                shown,
                "- "@ + draft.criteria[i].id + ": "@ + draft.criteria[i].description + " (evidence: "@ + text::joined(
                    draft.criteria[i].required_evidence,
                    ", "@,
                ) + ")"@,
            )
            &&& 0 <= i < draft.assumptions.len() ==> text::holds(shown, "- "@ + draft.assumptions[i])
            &&& 0 <= i < draft.risks.len() ==> text::holds(shown, "- "@ + draft.risks[i])
        }),
{
    let shown = specification_text(conversation);
    let draft = conversation.draft;
    let one = "# Proposed job specification\n\n## Summary\n\n"@;
    let two = "\n\n## Clarification answers\n\n"@;
    let three = "\n\n## Acceptance criteria\n\n"@;
    let four = "\n\n## Assumptions\n\n"@;
    let five = "\n\n## Risks\n\n"@;
    let answers = answers_text(conversation.answers);
    let criteria = criteria_text(draft.criteria);
    let assumptions = text::bulleted(draft.assumptions);
    let risks = risks_text(draft.risks);
    let end = "\n"@;
    let whole = one + draft.summary + two + answers + three + criteria + four + assumptions + five + risks + end;
    assert(shown == whole);
    text::parts_are_held(one, draft.summary, two + answers + three + criteria + four + assumptions + five + risks + end);
    assert(one + draft.summary + (two + answers + three + criteria + four + assumptions + five + risks + end) =~= whole);
    text::parts_are_held(
        one + draft.summary + two,
        answers,
        three + criteria + four + assumptions + five + risks + end,
    );
    assert(one + draft.summary + two + answers + (three + criteria + four + assumptions + five + risks + end) =~= whole);
    text::parts_are_held(
        one + draft.summary + two + answers + three,
        criteria,
        four + assumptions + five + risks + end,
    );
    assert(one + draft.summary + two + answers + three + criteria + (four + assumptions + five + risks + end) =~= whole);
    text::parts_are_held(
        one + draft.summary + two + answers + three + criteria + four,
        assumptions,
        five + risks + end,
    );
    assert(one + draft.summary + two + answers + three + criteria + four + assumptions + (five + risks + end) =~= whole);
    text::parts_are_held(
        one + draft.summary + two + answers + three + criteria + four + assumptions + five,
        risks,
        end,
    );
    if 0 <= i < conversation.answers.len() {
        let lines = Seq::new(conversation.answers.len(), |k: int| answer_line(conversation.answers[k]));
        text::joined_texts_are_held(lines, "\n"@, i);
        assert(lines[i] == answer_line(conversation.answers[i]));
        text::holding_is_transitive(shown, answers, lines[i]);
    }
    if 0 <= i < draft.criteria.len() {
        let lines = Seq::new(draft.criteria.len(), |k: int| criterion_line(draft.criteria[k]));
        text::joined_texts_are_held(lines, "\n"@, i);
        assert(lines[i] == criterion_line(draft.criteria[i]));
        text::holding_is_transitive(shown, criteria, lines[i]);
    }
    if 0 <= i < draft.assumptions.len() {
        text::bulleted_texts_are_held(draft.assumptions, i);
        text::holding_is_transitive(shown, assumptions, "- "@ + draft.assumptions[i]);
    }
    if 0 <= i < draft.risks.len() {
        text::bulleted_texts_are_held(draft.risks, i);
        assert(risks == text::bulleted(draft.risks)) by {
            reveal_strlit("- ");
            assert(("- "@ + draft.risks[i]).len() >= 2);
        }
        text::holding_is_transitive(shown, risks, "- "@ + draft.risks[i]);
    }
}

/// What is proposed for a request can be told from the checks of the project: the behavior is backed by
/// the unit tests where they are required, all required checks have to pass, and a browser flow is asked
/// for exactly where the interface is enabled or its check is required. Nothing counts as verified yet.
pub proof fn criteria_follow_the_checks(request: Seq<char>, root: Seq<char>, project: ProjectConfig)
    ensures
        ({
            let draft = drafted(request, root, project);
            let checks = text::texts(project.completion.required_checks@);
            let browser = project.ui.enabled || checks.contains(project.ui.test_command@);
            &&& draft.criteria.len() == if browser { 3int } else { 2int }
            &&& draft.criteria[0].id == "AC-1"@ && draft.criteria[1].id == "AC-2"@
            &&& text::holds(draft.criteria[0].description, draft.summary)
            &&& draft.criteria[0].required_evidence == if checks.contains("unit"@) {
                seq!["unit_test"@]
            } else {
                seq!["required_check"@]
            }
            &&& draft.criteria[1].required_evidence == seq!["required_check"@]
            &&& browser ==> draft.criteria[2].id == "AC-3"@ && draft.criteria[2].required_evidence == seq!["browser_test"@]
            &&& forall|i: int|
                0 <= i < draft.criteria.len() ==> (#[trigger] draft.criteria[i]).status is Unverified
                    && draft.criteria[i].evidence.len() == 0
        }),
{
    let draft = drafted(request, root, project);
    text::parts_are_held("The requested behavior is implemented: "@, draft.summary, Seq::empty());
    assert("The requested behavior is implemented: "@ + draft.summary + Seq::<char>::empty()
        =~= "The requested behavior is implemented: "@ + draft.summary);
}

/// A risk is named exactly where the request or the project gives cause: accounts and logins, data that
/// is deleted or migrated, an interface that is enabled.
pub proof fn risks_have_a_cause(request: Seq<char>, root: Seq<char>, project: ProjectConfig)
    ensures
        ({
            let risks = drafted(request, root, project).risks;
            &&& risks.contains("Authentication and authorization regressions require explicit test evidence."@) <==> (mentions(
                request,
                "auth"@,
            ) || mentions(request, "login"@) || mentions(request, "account"@))
            &&& risks.contains("Persistent data changes may be destructive or require a recovery strategy."@) <==> (mentions(
                request,
                "delete"@,
            ) || mentions(request, "migration"@) || mentions(request, "database"@))
            &&& risks.contains("Browser behavior and console failures must be captured by the configured UI check."@)
                <==> project.ui.enabled
            &&& risks.len() <= 3
        }),
{
    let one = "Authentication and authorization regressions require explicit test evidence."@;
    let two = "Persistent data changes may be destructive or require a recovery strategy."@;
    let three = "Browser behavior and console failures must be captured by the configured UI check."@;
    reveal_strlit("Authentication and authorization regressions require explicit test evidence.");
    reveal_strlit("Persistent data changes may be destructive or require a recovery strategy.");
    reveal_strlit("Browser behavior and console failures must be captured by the configured UI check.");
    assert(one[0] == 'A' && two[0] == 'P' && three[0] == 'B');
    let lower = text::lowered(normalized(request));
    let access = if text::holds(lower, "auth"@) || text::holds(lower, "login"@) || text::holds(lower, "account"@) {
        seq![one]
    } else {
        Seq::empty()
    };
    let data = if text::holds(lower, "delete"@) || text::holds(lower, "migration"@) || text::holds(lower, "database"@) {
        seq![two]
    } else {
        Seq::empty()
    };
    let browser = if project.ui.enabled {
        seq![three]
    } else {
        Seq::empty()
    };
    let risks = drafted(request, root, project).risks;
    assert(risks == access + data + browser);
    if access.len() > 0 {
        assert(risks[0] == one);
    }
    if data.len() > 0 {
        assert(risks[access.len() as int] == two);
    }
    if browser.len() > 0 {
        assert(risks[(access.len() + data.len()) as int] == three);
    }
}

/// What is taken for granted names the place of the work and every required check.
pub proof fn assumptions_name_the_checks(request: Seq<char>, root: Seq<char>, project: ProjectConfig, i: int)
    requires
        0 <= i < project.completion.required_checks@.len(),
    ensures
        ({
            let assumptions = drafted(request, root, project).assumptions;
            &&& assumptions.len() == 2
            &&& text::holds(assumptions[1], project.completion.required_checks@[i]@)
            &&& paths::name_of(root) is Some ==> text::holds(assumptions[0], paths::name_of(root)->0)
        }),
{
    let assumptions = drafted(request, root, project).assumptions;
    let checks = text::texts(project.completion.required_checks@);
    let list = text::joined(checks, ", "@);
    text::joined_texts_are_held(checks, ", "@, i);
    text::parts_are_held("Approved required checks are: "@, list, "."@);
    text::holding_is_transitive(assumptions[1], list, checks[i]);
    if let Some(name) = paths::name_of(root) {
        text::parts_are_held("Work is confined to "@, name, "."@);
    }
}

/// The sender of a request is told the question that is open, with its reason; and where none is, each
/// criterion, and that nothing runs before they approve.
pub proof fn senders_are_told_what_is_open(job_id: Seq<char>, conversation: ConversationView, i: int)
    ensures
        conversation.next() matches Some(question) ==> {
            &&& text::holds(message_for(job_id, conversation), question.question)
            &&& text::holds(message_for(job_id, conversation), question.reason)
            &&& question.id.is_prefix_of(message_for(job_id, conversation))
        },
        conversation.next() is None ==> {
            &&& text::holds(message_for(job_id, conversation), job_id)
            &&& text::holds(
                message_for(job_id, conversation),
                "\n\nReply APPROVE to begin. No worker or project check will run before approval."@,
            )
            &&& 0 <= i < conversation.draft.criteria.len() ==> text::holds(
                message_for(job_id, conversation),
                conversation.draft.criteria[i].id + ": "@ + conversation.draft.criteria[i].description
                    + " [required evidence: "@ + text::joined(conversation.draft.criteria[i].required_evidence, ", "@) + "]"@,
            )
        },
{
    let told = message_for(job_id, conversation);
    match conversation.next() {
        Some(question) => {
            text::parts_are_held(question.id + " — "@, question.question, "\nReason: "@ + question.reason);
            assert(question.id + " — "@ + question.question + ("\nReason: "@ + question.reason) =~= told);
            text::parts_are_held(question.id + " — "@ + question.question + "\nReason: "@, question.reason, Seq::empty());
            assert(question.id + " — "@ + question.question + "\nReason: "@ + question.reason + Seq::<char>::empty() =~= told);
            assert(question.id =~= told.subrange(0, question.id.len() as int));
        },
        None => {
            let criteria = conversation.draft.criteria;
            let lines = Seq::new(criteria.len(), |k: int| offered_criterion(criteria[k]));
            let list = text::joined(lines, "\n"@);
            let end = "\n\nReply APPROVE to begin. No worker or project check will run before approval."@;
            let start = "Proposed specification for "@;
            text::parts_are_held(start, job_id, ":\n\n"@ + list + end);
            assert(start + job_id + (":\n\n"@ + list + end) =~= told);
            text::parts_are_held(start + job_id + ":\n\n"@ + list, end, Seq::empty());
            assert(start + job_id + ":\n\n"@ + list + end + Seq::<char>::empty() =~= told);
            if 0 <= i < criteria.len() {
                text::joined_texts_are_held(lines, "\n"@, i);
                assert(lines[i] == offered_criterion(criteria[i]));
                text::parts_are_held(start + job_id + ":\n\n"@, list, end);
                text::holding_is_transitive(told, list, lines[i]);
            }
        },
    }
}

/// A model that plans is told the whole request, every check and the files of the repository.
pub proof fn planners_are_told_the_request(
    request: Seq<char>,
    checks: Seq<Seq<char>>,
    repository: Option<Seq<char>>,
    i: int,
)
    ensures
        text::holds(planner_prompt(request, checks, repository), "Request:\n"@ + request + "\n\nApproved checks:\n"@),
        0 <= i < checks.len() ==> text::holds(planner_prompt(request, checks, repository), checks[i]),
        repository matches Some(files) ==> text::holds(
            planner_prompt(request, checks, repository),
            "\n\nRepository files:\n"@ + files,
        ),
{
    let prompt = planner_prompt(request, checks, repository);
    let opening = "Draft concise, task-specific software requirements in the supplied JSON schema. Ask only materially useful questions that cannot be answered from the repository. Zero questions is valid. Do not expose hidden reasoning. Proposed criteria must name required evidence types such as unit_test, browser_test, lint, build, required_check, or manual.\n\nRequest:\n"@;
    let first = "Draft concise, task-specific software requirements in the supplied JSON schema. Ask only materially useful questions that cannot be answered from the repository. Zero questions is valid. Do not expose hidden reasoning. Proposed criteria must name required evidence types such as unit_test, browser_test, lint, build, required_check, or manual.\n\n"@;
    reveal_strlit(
        "Draft concise, task-specific software requirements in the supplied JSON schema. Ask only materially useful questions that cannot be answered from the repository. Zero questions is valid. Do not expose hidden reasoning. Proposed criteria must name required evidence types such as unit_test, browser_test, lint, build, required_check, or manual.\n\nRequest:\n",
    );
    reveal_strlit(
        "Draft concise, task-specific software requirements in the supplied JSON schema. Ask only materially useful questions that cannot be answered from the repository. Zero questions is valid. Do not expose hidden reasoning. Proposed criteria must name required evidence types such as unit_test, browser_test, lint, build, required_check, or manual.\n\n",
    );
    reveal_strlit("Request:\n");
    assert(opening =~= first + "Request:\n"@);
    let one = "\n\nApproved checks:\n"@;
    let list = text::joined(checks, ", "@);
    let two = "\n\nRepository files:\n"@;
    let files = match repository {
        Some(files) => files,
        None => "Repository scan unavailable."@,
    };
    assert(prompt == opening + request + one + list + two + files);
    text::parts_are_held(first, "Request:\n"@ + request + one, list + two + files);
    assert(first + ("Request:\n"@ + request + one) + (list + two + files) =~= prompt);
    text::parts_are_held(opening + request + one, list, two + files);
    assert(opening + request + one + list + (two + files) =~= prompt);
    text::parts_are_held(opening + request + one + list, two + files, Seq::empty());
    assert(opening + request + one + list + (two + files) + Seq::<char>::empty() =~= prompt);
    if 0 <= i < checks.len() {
        text::joined_texts_are_held(checks, ", "@, i);
        text::holding_is_transitive(prompt, list, checks[i]);
    }
}

/// A summary is one sentence out of the request: it ends with a full stop, is no longer than a hundred
/// and sixty characters before that, and starts as the request does. A short request without a final
/// mark is quoted whole.
pub proof fn summaries_quote_the_request(request: Seq<char>)
    ensures
        summary_of(request).len() > 0,
        summary_of(request).last() == '.',
        summary_of(request).len() <= 161,
        ({
            let said = text::trimmed(request);
            &&& said.len() > 0 && said.last() != '.' && said.last() != '!' && said.last() != '?' ==> if said.len() <= 160 {
                summary_of(request) == said + "."@
            } else {
                summary_of(request) == said.take(160) + "."@
            }
            &&& said.len() == 0 ==> summary_of(request) == "Complete the requested change."@
        }),
{
    reveal_strlit("Complete the requested change.");
    reveal_strlit(".");
    reveal_strlit(".!?");
    let set = ".!?"@;
    assert(set[0] == '.' && set[1] == '!' && set[2] == '?');
}

} // verus!
