//! Independent review: what is asked and what the verdict means.

use vstd::prelude::*;

use crate::jobs::CheckExecution;
use crate::text;

verus! {

/// The verdict of a review.
#[derive(Debug, Clone, Copy, PartialEq, Eq, Structural)]
pub enum ReviewStatus {
    Approved,
    ChangesRequired,
    Blocked,
}

impl ReviewStatus {
    /// The name of the verdict.
    pub open spec fn title(self) -> Seq<char> {
        match self {
            ReviewStatus::Approved => "Approved"@,
            ReviewStatus::ChangesRequired => "ChangesRequired"@,
            ReviewStatus::Blocked => "Blocked"@,
        }
    }

    /// The name of the verdict.
    pub fn name(self) -> (name: String)
        ensures
            name@ == self.title(),
    {
        match self {
            ReviewStatus::Approved => "Approved".to_string(),
            ReviewStatus::ChangesRequired => "ChangesRequired".to_string(),
            ReviewStatus::Blocked => "Blocked".to_string(),
        }
    }
}

/// What a review says of one criterion.
#[derive(Debug)]
pub struct CriterionReviewFinding {
    pub criterion_id: String,
    pub status: ReviewStatus,
    pub summary: String,
}

/// What a review says of a job.
#[derive(Debug)]
pub struct ReviewResult {
    pub status: ReviewStatus,
    pub summary: String,
    pub criterion_findings: Vec<CriterionReviewFinding>,
}

/// A finding as the model writes it.
#[derive(Debug)]
pub struct RawFinding {
    pub criterion_id: String,
    pub status: String,
    pub summary: String,
}

/// A review as the model writes it.
#[derive(Debug)]
pub struct RawReview {
    pub status: String,
    pub summary: String,
    pub criterion_findings: Vec<RawFinding>,
}

/// Why a review is not accepted.
#[derive(Debug, Clone, Copy, PartialEq, Eq, Structural)]
pub enum ReviewError {
    NoContent,
    UnsupportedStatus,
}

impl ReviewError {
    /// The message of the error.
    pub open spec fn text(self) -> Seq<char> {
        match self {
            ReviewError::NoContent => "review did not return message.content"@,
            ReviewError::UnsupportedStatus => "review returned an unsupported status"@,
        }
    }

    /// The message of the error.
    pub fn message(&self) -> (message: String)
        ensures
            message@ == self.text(),
    {
        match self {
            ReviewError::NoContent => "review did not return message.content".to_string(),
            ReviewError::UnsupportedStatus => "review returned an unsupported status".to_string(),
        }
    }
}

/// The verdict that a word stands for, where it stands for one.
pub open spec fn verdict(status: Seq<char>) -> Option<ReviewStatus> {
    if status == "approved"@ {
        Some(ReviewStatus::Approved)
    } else if status == "changes_required"@ {
        Some(ReviewStatus::ChangesRequired)
    } else if status == "blocked"@ {
        Some(ReviewStatus::Blocked)
    } else {
        None
    }
}

/// The verdict that the word stands for.
pub fn parse_review_status(status: &str) -> (result: Result<ReviewStatus, ReviewError>)
    ensures
        match verdict(status@) {
            Some(found) => result == Ok::<ReviewStatus, ReviewError>(found),
            None => result == Err::<ReviewStatus, ReviewError>(ReviewError::UnsupportedStatus),
        },
{
    if text::same(status, "approved") {
        Ok(ReviewStatus::Approved)
    } else if text::same(status, "changes_required") {
        Ok(ReviewStatus::ChangesRequired)
    } else if text::same(status, "blocked") {
        Ok(ReviewStatus::Blocked)
    } else {
        Err(ReviewError::UnsupportedStatus)
    }
}

/// Whether every verdict of a review is a known word.
pub open spec fn verdicts_known(raw: RawReview) -> bool {
    &&& verdict(raw.status@) is Some
    &&& forall|i: int| 0 <= i < raw.criterion_findings@.len() ==> verdict((#[trigger] raw.criterion_findings@[i]).status@) is Some
}

/// The review that the model wrote, where all its verdicts are known words.
pub fn read_review(raw: RawReview) -> (result: Result<ReviewResult, ReviewError>)
    ensures
        result is Ok <==> verdicts_known(raw),
        result matches Ok(review) ==> {
            &&& verdict(raw.status@) == Some(review.status)
            &&& review.summary == raw.summary
            &&& review.criterion_findings@.len() == raw.criterion_findings@.len()
            &&& forall|i: int|
                0 <= i < raw.criterion_findings@.len() ==> {
                    let finding = #[trigger] review.criterion_findings@[i];
                    &&& finding.criterion_id == raw.criterion_findings@[i].criterion_id
                    &&& verdict(raw.criterion_findings@[i].status@) == Some(finding.status)
                    &&& finding.summary == raw.criterion_findings@[i].summary
                }
        },
        result matches Err(error) ==> error is UnsupportedStatus,
{
    let status = match parse_review_status(raw.status.as_str()) {
        Ok(status) => status,
        Err(error) => {
            return Err(error);
        },
    };
    let mut findings: Vec<CriterionReviewFinding> = Vec::new();
    let mut at: usize = 0;
    while at < raw.criterion_findings.len()
        invariant
            at <= raw.criterion_findings@.len(),
            findings@.len() == at,
            verdict(raw.status@) is Some,
            forall|i: int|
                0 <= i < at ==> {
                    let finding = #[trigger] findings@[i];
                    &&& finding.criterion_id == raw.criterion_findings@[i].criterion_id
                    &&& verdict(raw.criterion_findings@[i].status@) == Some(finding.status)
                    &&& finding.summary == raw.criterion_findings@[i].summary
                },
        decreases raw.criterion_findings@.len() - at,
    {
        let item = &raw.criterion_findings[at];
        let status = match parse_review_status(item.status.as_str()) {
            Ok(status) => status,
            Err(error) => {
                assert(verdict(raw.criterion_findings@[at as int].status@) is None);
                return Err(error);
            },
        };
        findings.push(
            CriterionReviewFinding { criterion_id: item.criterion_id.clone(), status, summary: item.summary.clone() },
        );
        at = at + 1;
    }
    proof {
        assert forall|i: int| 0 <= i < raw.criterion_findings@.len() implies verdict(
            (#[trigger] raw.criterion_findings@[i]).status@,
        ) is Some by {
            assert(findings@[i].status == verdict(raw.criterion_findings@[i].status@)->0);
        }
    }
    Ok(ReviewResult { status, summary: raw.summary, criterion_findings: findings })
}

/// How a check is shown in the question for a review.
pub open spec fn check_text(check: CheckExecution) -> Seq<char> {
    "category: "@ + check.category@ + "\n"@ + check.result.evidence_text()
}

/// What is asked for a review.
pub open spec fn review_text(request: Seq<char>, specification: Seq<char>, checks: Seq<CheckExecution>) -> Seq<char> {
    "Review this completed software job independently. Return approved, changes_required, or blocked. Do not claim completion; Bender owns completion gates.\n\nRequest:\n"@
        + request + "\n\nSpecification:\n"@ + specification + "\n\nChecks:\n"@ + text::joined(
        Seq::new(checks.len(), |i: int| check_text(checks[i])),
        "\n\n"@,
    )
}

/// What is asked for a review.
pub fn review_prompt(request: &str, specification: &str, checks: &Vec<CheckExecution>) -> (prompt: String)
    ensures
        prompt@ == review_text(request@, specification@, checks@),
{
    let mut shown: Vec<String> = Vec::new();
    let mut at: usize = 0;
    while at < checks.len()
        invariant
            at <= checks@.len(),
            shown@.len() == at,
            forall|i: int| 0 <= i < at ==> (#[trigger] shown@[i])@ == check_text(checks@[i]),
        decreases checks@.len() - at,
    {
        let evidence = checks[at].result.evidence();
        shown.push(
            "category: ".to_string().concat(checks[at].category.as_str()).concat("\n").concat(evidence.as_str()),
        );
        at = at + 1;
    }
    assert(text::texts(shown@) =~= Seq::new(checks@.len(), |i: int| check_text(checks@[i])));
    "Review this completed software job independently. Return approved, changes_required, or blocked. Do not claim completion; Bender owns completion gates.\n\nRequest:\n".to_string().concat(
        request,
    ).concat("\n\nSpecification:\n").concat(specification).concat("\n\nChecks:\n").concat(
        text::join(&shown, "\n\n").as_str(),
    )
}

/// Reviews by a model of a service.
#[derive(Debug)]
pub struct GemmaReviewer {
    pub base_url: String,
    pub model: String,
}

impl GemmaReviewer {
    /// Reviews by the model of a service.
    pub fn new(base_url: &str, model: &str) -> (reviewer: Self)
        ensures
            reviewer.base_url@ == base_url@,
            reviewer.model@ == model@,
    {
        GemmaReviewer { base_url: base_url.to_string(), model: model.to_string() }
    }

    /// Where the model is asked.
    pub fn url(&self) -> (url: String)
        ensures
            url@ == text::trim_end_of(self.base_url@, "/"@) + "/api/chat"@,
    {
        crate::worker::chat_url(self.base_url.as_str())
    }

    /// The text of the model's reply, which holds the review.
    pub fn content(reply: &crate::json::Json) -> (result: Result<String, ReviewError>)
        ensures
            match crate::worker::reply_content(*reply) {
                Some(content) => result is Ok && result->Ok_0@ == content,
                None => result matches Err(ReviewError::NoContent),
            },
    {
        match crate::worker::chat_content(reply) {
            Some(content) => Ok(content),
            None => Err(ReviewError::NoContent),
        }
    }
}

// ---------------------------------------------------------------------------
// What always holds
// ---------------------------------------------------------------------------

/// What a model may answer are three words, each with its own meaning; no other word means anything.
pub proof fn verdicts_have_one_word(status: Seq<char>)
    ensures
        verdict(status) == Some(ReviewStatus::Approved) <==> status == "approved"@,
        verdict(status) == Some(ReviewStatus::ChangesRequired) <==> status == "changes_required"@,
        verdict(status) == Some(ReviewStatus::Blocked) <==> status == "blocked"@,
        verdict(status) is None <==> status != "approved"@ && status != "changes_required"@ && status != "blocked"@,
{
    reveal_strlit("approved");
    reveal_strlit("changes_required");
    reveal_strlit("blocked");
    assert("approved"@.len() == 8);
    assert("changes_required"@.len() == 16);
    assert("blocked"@.len() == 7);
}

/// A review is shown all of the request and the specification, each under its heading, and of each
/// check its category with all that the check showed.
pub proof fn reviews_see_the_whole_job(
    request: Seq<char>,
    specification: Seq<char>,
    checks: Seq<CheckExecution>,
    i: int,
)
    ensures
        text::holds(
            review_text(request, specification, checks),
            request + "\n\nSpecification:\n"@ + specification + "\n\nChecks:\n"@,
        ),
        0 <= i < checks.len() ==> text::holds(
            review_text(request, specification, checks),
            "category: "@ + checks[i].category@ + "\n"@ + checks[i].result.evidence_text(),
        ),
{
    let prompt = review_text(request, specification, checks);
    let opening = "Review this completed software job independently. Return approved, changes_required, or blocked. Do not claim completion; Bender owns completion gates.\n\nRequest:\n"@;
    let one = "\n\nSpecification:\n"@;
    let two = "\n\nChecks:\n"@;
    let lines = Seq::new(checks.len(), |k: int| check_text(checks[k]));
    let list = text::joined(lines, "\n\n"@);
    text::parts_are_held(opening, request + one + specification + two, list);
    assert(opening + (request + one + specification + two) + list =~= prompt);
    if 0 <= i < checks.len() {
        text::joined_texts_are_held(lines, "\n\n"@, i);
        assert(lines[i] == check_text(checks[i]));
        text::parts_are_held(opening + request + one + specification + two, list, Seq::empty());
        assert(opening + request + one + specification + two + list + Seq::<char>::empty() =~= prompt);
        text::holding_is_transitive(prompt, list, lines[i]);
    }
}

/// Two jobs that differ only in their specification, or only in their request, are not put to review in
/// the same words.
pub proof fn reviews_tell_jobs_apart(
    request: Seq<char>,
    specification: Seq<char>,
    checks: Seq<CheckExecution>,
    other: Seq<char>,
)
    ensures
        review_text(request, specification, checks) == review_text(request, other, checks) ==> specification == other,
        review_text(request, specification, checks) == review_text(other, specification, checks) ==> request == other,
{
    let opening = "Review this completed software job independently. Return approved, changes_required, or blocked. Do not claim completion; Bender owns completion gates.\n\nRequest:\n"@;
    let one = "\n\nSpecification:\n"@;
    let two = "\n\nChecks:\n"@;
    let end = two + text::joined(Seq::new(checks.len(), |k: int| check_text(checks[k])), "\n\n"@);
    let prompt = review_text(request, specification, checks);
    assert(prompt == review_text(request, other, checks) ==> specification == other) by {
        let front = opening + request + one;
        assert(prompt =~= front + specification + end);
        assert(review_text(request, other, checks) =~= front + other + end);
        if prompt == review_text(request, other, checks) {
            text::frames_tell_apart(front, specification, other, end);
        }
    }
    assert(prompt == review_text(other, specification, checks) ==> request == other) by {
        let tail = one + specification + end;
        assert(prompt =~= opening + request + tail);
        assert(review_text(other, specification, checks) =~= opening + other + tail);
        if prompt == review_text(other, specification, checks) {
            text::frames_tell_apart(opening, request, other, tail);
        }
    }
}

} // verus!
