//! What is said about a job, and how it is kept with the job and in the chat.

use vstd::prelude::*;

use crate::chats;
use crate::chats::{ChatError, ChatStore, ChatsView, MessageView};
use crate::job_store;
use crate::job_store::{JobStore, StoreView};
use crate::jobs;
use crate::jobs::{AcceptanceCriterion, CriterionView, Job, JobError, JobState, JobView, LineView, RecordView};
use crate::model;
use crate::project_config::{ProjectConfig, WorkerSettings};
use crate::review::GemmaReviewer;
use crate::text;

verus! {

/// A job after a message about it was kept.
pub open spec fn told(
    job: JobView,
    conversation_id: Seq<char>,
    sender: Seq<char>,
    direction: Seq<char>,
    content: Seq<char>,
    now: u64,
) -> JobView {
    JobView {
        conversation: job.conversation.push(LineView { timestamp: now, conversation_id, sender, direction, content }),
        ..job
    }
}

/// A job after a message of its sender was kept.
pub open spec fn asked(job: JobView, conversation_id: Seq<char>, sender: Seq<char>, content: Seq<char>, now: u64) -> JobView {
    told(job, conversation_id, sender, "inbound"@, content, now)
}

/// A job after a reply to its sender was kept.
pub open spec fn answered(job: JobView, conversation_id: Seq<char>, content: Seq<char>, now: u64) -> JobView {
    told(job, conversation_id, "bender"@, "outbound"@, content, now)
}

/// Keeps a reply with its job.
pub fn append_job_reply(job: &mut Job, conversation_id: &str, response: &str, now: u64)
    ensures
        final(job)@ == answered(old(job)@, conversation_id@, response@, now),
{
    job.converse(conversation_id, "bender", "outbound", response, now);
}

// ---------------------------------------------------------------------------
// Questions and proposals
// ---------------------------------------------------------------------------

/// What is asked before a job begins.
pub open spec fn questions_for(id: Seq<char>) -> Seq<char> {
    "Before I begin "@ + id
        + ":\n1. What observable behavior proves this is complete?\n2. Are there compatibility, security, or scope constraints?\n3. Which configured checks are required?\n\nReply with the answers; I will persist a specification for approval."@
}

/// What is asked before a job begins.
pub fn questions(id: &str) -> (message: String)
    ensures
        message@ == questions_for(id@),
{
    "Before I begin ".to_string().concat(id).concat(
        ":\n1. What observable behavior proves this is complete?\n2. Are there compatibility, security, or scope constraints?\n3. Which configured checks are required?\n\nReply with the answers; I will persist a specification for approval.",
    )
}

/// A criterion that the required checks back.
pub fn checked_criterion(id: &str, description: &str) -> (criterion: AcceptanceCriterion)
    ensures
        criterion@ == jobs::fresh_criterion(id@, description@, seq!["required_check"@]),
{
    let required = vec!["required_check".to_string()];
    assert(text::texts(required@) =~= seq!["required_check"@]);
    AcceptanceCriterion::new(id, description, required)
}

/// The descriptions of criteria, each with its number.
pub open spec fn numbered(criteria: Seq<CriterionView>) -> Seq<Seq<char>> {
    Seq::new(criteria.len(), |i: int| text::digits((i + 1) as nat) + ". "@ + criteria[i].description)
}

/// The descriptions of the criteria, each with its number on a line of its own.
pub fn numbered_criteria(criteria: &Vec<AcceptanceCriterion>) -> (list: String)
    ensures
        list@ == text::joined(numbered(model::views(criteria@)), "\n"@),
{
    let ghost all = model::views(criteria@);
    let mut lines: Vec<String> = Vec::new();
    let mut at: usize = 0;
    while at < criteria.len()
        invariant
            at <= criteria@.len(),
            all == model::views(criteria@),
            lines@.len() == at,
            forall|i: int| 0 <= i < at ==> (#[trigger] lines@[i])@ == numbered(all)[i],
        decreases criteria@.len() - at,
    {
        assert(all[at as int] == criteria@[at as int]@);
        let number = text::decimal_of(at as u128 + 1);
        lines.push(number.concat(". ").concat(criteria[at].description.as_str()));
        at = at + 1;
    }
    assert(text::texts(lines@) =~= numbered(all));
    text::join(&lines, "\n")
}

/// The specification that is put up for approval once the questions are answered.
pub open spec fn proposal(request: Seq<char>, answers: Seq<char>, criteria: Seq<CriterionView>) -> Seq<char> {
    "# Proposed job specification\n\n## Original request\n\n"@ + request + "\n\n## Clarification answers\n\n"@ + answers
        + "\n\n## Acceptance criteria\n\n"@ + text::joined(numbered(criteria), "\n"@)
}

/// The specification that is put up for approval once the questions are answered.
pub fn propose(request: &str, answers: &str, criteria: &Vec<AcceptanceCriterion>) -> (specification: String)
    ensures
        specification@ == proposal(request@, answers@, model::views(criteria@)),
{
    "# Proposed job specification\n\n## Original request\n\n".to_string().concat(request).concat(
        "\n\n## Clarification answers\n\n",
    ).concat(answers).concat("\n\n## Acceptance criteria\n\n").concat(numbered_criteria(criteria).as_str())
}

/// What is said when a specification is put up for approval.
pub open spec fn offer(id: Seq<char>, criteria: Seq<CriterionView>, ending: Seq<char>) -> Seq<char> {
    "Proposed acceptance criteria for "@ + id + ":\n"@ + text::joined(numbered(criteria), "\n"@) + ending
}

/// What is said when a specification is put up for approval.
pub fn offer_message(id: &str, criteria: &Vec<AcceptanceCriterion>, ending: &str) -> (message: String)
    ensures
        message@ == offer(id@, model::views(criteria@), ending@),
{
    "Proposed acceptance criteria for ".to_string().concat(id).concat(":\n").concat(numbered_criteria(criteria).as_str()).concat(
        ending,
    )
}

// ---------------------------------------------------------------------------
// What a message does to the jobs
// ---------------------------------------------------------------------------

/// A job after its sender approved it.
pub open spec fn approved(job: JobView, conversation_id: Seq<char>, sender: Seq<char>, now: u64) -> JobView {
    let heard = asked(job, conversation_id, sender, "APPROVE"@, now);
    (JobView { record: RecordView { approved_at: Some(now), ..heard.record }, ..heard }).moved(
        JobState::Approved,
        "Specification approved"@,
        now,
    )
}

/// What the approval of a record comes to: the store, and the position of the job that is stored under
/// the id of the record, or the message of what went wrong. Where that job does not await approval, the
/// approval is kept with it if it is heard first.
pub open spec fn approval(
    before: StoreView,
    id: Seq<char>,
    conversation_id: Seq<char>,
    sender: Seq<char>,
    heard_first: bool,
    now: u64,
) -> (StoreView, Result<int, Seq<char>>) {
    match before.loaded(id) {
        Err(message) => (before, Err(message)),
        Ok(j) => {
            let job = before.jobs[j];
            if job.record.state is AwaitingApproval {
                (
                    StoreView { jobs: before.jobs.update(j, approved(job, conversation_id, sender, now)), ..before },
                    Ok(j),
                )
            } else if heard_first {
                (
                    StoreView { jobs: before.jobs.update(j, asked(job, conversation_id, sender, "APPROVE"@, now)), ..before },
                    Err(JobError::NotAwaitingApproval.text()),
                )
            } else {
                (before, Err(JobError::NotAwaitingApproval.text()))
            }
        },
    }
}

/// Whether a store and an outcome are what an approval comes to: the newest record of the sender that
/// awaits approval is approved, where there is one.
pub open spec fn approval_taken(
    before: StoreView,
    conversation_id: Seq<char>,
    sender: Seq<char>,
    heard_first: bool,
    now: u64,
    after: StoreView,
    outcome: Result<Option<int>, Seq<char>>,
) -> bool {
    if exists|k: int| #[trigger] before.wanted(k, Some(sender), JobState::AwaitingApproval) {
        exists|i: int| #[trigger]
            before.newest_wanted(i, Some(sender), JobState::AwaitingApproval) && {
                let taken = approval(before, before.jobs[i].record.id, conversation_id, sender, heard_first, now);
                after == taken.0 && outcome == match taken.1 {
                    Ok(j) => Ok::<Option<int>, Seq<char>>(Some(j)),
                    Err(message) => Err::<Option<int>, Seq<char>>(message),
                }
            }
    } else {
        after == before && outcome == Ok::<Option<int>, Seq<char>>(None)
    }
}

/// The position that was found, or the message of what went wrong.
pub open spec fn place_or_message(found: Result<Option<usize>, JobError>) -> Result<Option<int>, Seq<char>> {
    match found {
        Ok(Some(i)) => Ok(Some(i as int)),
        Ok(None) => Ok(None),
        Err(error) => Err(error.text()),
    }
}

/// Approves the newest job of the sender that awaits approval, and gives its position. The approval is
/// kept with the job, before it is approved where it is heard first.
pub fn approve_newest(store: &mut JobStore, conversation_id: &str, sender: &str, heard_first: bool, now: u64) -> (found: Result<
    Option<usize>,
    JobError,
>)
    requires
        old(store)@.wf(),
    ensures
        final(store)@.wf(),
        approval_taken(
            old(store)@,
            conversation_id@,
            sender@,
            heard_first,
            now,
            final(store)@,
            place_or_message(found),
        ),
        found matches Ok(Some(i)) ==> i < final(store).jobs@.len(),
{
    let ghost before = store@;
    let i = match store.newest(Some(sender), JobState::AwaitingApproval) {
        None => {
            return Ok(None);
        },
        Some(i) => i,
    };
    assert(before.newest_wanted(i as int, Some(sender@), JobState::AwaitingApproval));
    assert(before.wanted(i as int, Some(sender@), JobState::AwaitingApproval));
    assert(before.jobs[i as int] == store.jobs@[i as int]@);
    let j = match store.find(store.jobs[i].record.id.as_str()) {
        Err(error) => {
            return Err(error);
        },
        Ok(j) => j,
    };
    assert(before.jobs[j as int] == store.jobs@[j as int]@);
    let job = &mut store.jobs[j];
    if heard_first {
        job.converse(conversation_id, sender, "inbound", "APPROVE", now);
    }
    let result = job.approve(now);
    if !heard_first && result.is_ok() {
        job.converse(conversation_id, sender, "inbound", "APPROVE", now);
    }
    proof {
        let taken = approval(before, before.jobs[i as int].record.id, conversation_id@, sender@, heard_first, now);
        assert(store@.jobs =~= taken.0.jobs);
        assert(before.jobs.update(j as int, before.jobs[j as int]) =~= before.jobs);
        job_store::changes_keep_the_store_sound(before, j as int, store@.jobs[j as int]);
        assert(store@.jobs =~= before.jobs.update(j as int, store@.jobs[j as int]));
    }
    match result {
        Ok(_) => Ok(Some(j)),
        Err(error) => Err(error),
    }
}

/// A job after its sender answered the questions: its specification is put up for approval.
pub open spec fn clarified(
    job: JobView,
    conversation_id: Seq<char>,
    sender: Seq<char>,
    answers: Seq<char>,
    criteria: Seq<CriterionView>,
    ending: Seq<char>,
    now: u64,
) -> JobView {
    let put_up = job.specified(proposal(job.request, answers, criteria), criteria).moved(
        JobState::AwaitingApproval,
        "Specification is ready for approval"@,
        now,
    );
    answered(
        asked(put_up, conversation_id, sender, answers, now),
        conversation_id,
        offer(job.record.id, criteria, ending),
        now,
    )
}

/// What answers to the questions about a record come to: the store, and the reply or the message of
/// what went wrong. The job that takes them is the one that is stored under the id of the record. Where
/// it came to its end it gets the specification only, and the answers if they are heard first.
pub open spec fn clarification(
    before: StoreView,
    id: Seq<char>,
    conversation_id: Seq<char>,
    sender: Seq<char>,
    answers: Seq<char>,
    criteria: Seq<CriterionView>,
    ending: Seq<char>,
    heard_first: bool,
    now: u64,
) -> (StoreView, Result<Seq<char>, Seq<char>>) {
    match before.loaded(id) {
        Err(message) => (before, Err(message)),
        Ok(j) => {
            let job = before.jobs[j];
            if job.record.state.may_become(JobState::AwaitingApproval) {
                (
                    StoreView {
                        jobs: before.jobs.update(
                            j,
                            clarified(job, conversation_id, sender, answers, criteria, ending, now),
                        ),
                        ..before
                    },
                    Ok(offer(job.record.id, criteria, ending)),
                )
            } else {
                let heard = if heard_first {
                    asked(job, conversation_id, sender, answers, now)
                } else {
                    job
                };
                (
                    StoreView {
                        jobs: before.jobs.update(
                            j,
                            heard.specified(proposal(job.request, answers, criteria), criteria),
                        ),
                        ..before
                    },
                    Err(jobs::terminal_text(job.record.id)),
                )
            }
        },
    }
}

/// Whether a store and an outcome are what answers come to: the newest record of the sender that waits
/// for answers gets them, where there is one.
pub open spec fn clarification_taken(
    before: StoreView,
    conversation_id: Seq<char>,
    sender: Seq<char>,
    answers: Seq<char>,
    criteria: Seq<CriterionView>,
    ending: Seq<char>,
    heard_first: bool,
    now: u64,
    after: StoreView,
    outcome: Result<Option<Seq<char>>, Seq<char>>,
) -> bool {
    if exists|k: int| #[trigger] before.wanted(k, Some(sender), JobState::Clarifying) {
        exists|i: int| #[trigger]
            before.newest_wanted(i, Some(sender), JobState::Clarifying) && {
                let taken = clarification(
                    before,
                    before.jobs[i].record.id,
                    conversation_id,
                    sender,
                    answers,
                    criteria,
                    ending,
                    heard_first,
                    now,
                );
                after == taken.0 && outcome == match taken.1 {
                    Ok(reply) => Ok::<Option<Seq<char>>, Seq<char>>(Some(reply)),
                    Err(message) => Err::<Option<Seq<char>>, Seq<char>>(message),
                }
            }
    } else {
        after == before && outcome == Ok::<Option<Seq<char>>, Seq<char>>(None)
    }
}

/// The reply that was given, or the message of what went wrong.
pub open spec fn reply_or_message(found: Result<Option<String>, JobError>) -> Result<Option<Seq<char>>, Seq<char>> {
    match found {
        Ok(Some(reply)) => Ok(Some(reply@)),
        Ok(None) => Ok(None),
        Err(error) => Err(error.text()),
    }
}

/// Takes the answers to the questions of the newest job of the sender that waits for them, and gives
/// the reply. The answers are kept with the job, before they are taken where they are heard first.
pub fn clarify_newest(
    store: &mut JobStore,
    conversation_id: &str,
    sender: &str,
    answers: &str,
    criteria: &Vec<AcceptanceCriterion>,
    ending: &str,
    heard_first: bool,
    now: u64,
) -> (found: Result<Option<String>, JobError>)
    requires
        old(store)@.wf(),
    ensures
        final(store)@.wf(),
        clarification_taken(
            old(store)@,
            conversation_id@,
            sender@,
            answers@,
            model::views(criteria@),
            ending@,
            heard_first,
            now,
            final(store)@,
            reply_or_message(found),
        ),
{
    let ghost before = store@;
    let i = match store.newest(Some(sender), JobState::Clarifying) {
        None => {
            return Ok(None);
        },
        Some(i) => i,
    };
    assert(before.newest_wanted(i as int, Some(sender@), JobState::Clarifying));
    assert(before.wanted(i as int, Some(sender@), JobState::Clarifying));
    assert(before.jobs[i as int] == store.jobs@[i as int]@);
    let j = match store.find(store.jobs[i].record.id.as_str()) {
        Err(error) => {
            return Err(error);
        },
        Ok(j) => j,
    };
    assert(before.jobs[j as int] == store.jobs@[j as int]@);
    let specification = propose(store.jobs[j].request.as_str(), answers, criteria);
    let message = offer_message(store.jobs[j].record.id.as_str(), criteria, ending);
    let job = &mut store.jobs[j];
    if heard_first {
        job.converse(conversation_id, sender, "inbound", answers, now);
    }
    let result = job.set_specification(specification.as_str(), criteria, now);
    if result.is_ok() {
        if !heard_first {
            job.converse(conversation_id, sender, "inbound", answers, now);
        }
        append_job_reply(job, conversation_id, message.as_str(), now);
    }
    proof {
        let taken = clarification(
            before,
            before.jobs[i as int].record.id,
            conversation_id@,
            sender@,
            answers@,
            model::views(criteria@),
            ending@,
            heard_first,
            now,
        );
        assert(store@.jobs =~= taken.0.jobs);
        job_store::changes_keep_the_store_sound(before, j as int, store@.jobs[j as int]);
        assert(store@.jobs =~= before.jobs.update(j as int, store@.jobs[j as int]));
    }
    match result {
        Ok(_) => Ok(Some(message)),
        Err(error) => Err(error),
    }
}

/// A job that was just opened: its sender is asked what it is about.
pub open spec fn opened(
    jobs_root: Seq<char>,
    id: Seq<char>,
    conversation_id: Seq<char>,
    sender: Seq<char>,
    task: Seq<char>,
    note: Seq<char>,
    now: u64,
) -> JobView {
    let waiting = job_store::received(jobs_root, id, task, sender, Some(conversation_id), now).moved(
        JobState::Clarifying,
        "Waiting for scope and acceptance clarification"@,
        now,
    );
    answered(asked(waiting, conversation_id, sender, task, now), conversation_id, questions_for(id) + note, now)
}

/// Opens a job, and gives the reply: the questions with a note behind them.
pub fn open_job(
    store: &mut JobStore,
    conversation_id: &str,
    sender: &str,
    task: &str,
    note: &str,
    now: u64,
    pid: u32,
    sequence: u64,
) -> (message: String)
    requires
        old(store)@.wf(),
    ensures
        final(store)@.wf(),
        message@ == questions_for(job_store::fresh_id(now, pid, sequence)) + note@,
        final(store)@ == (StoreView {
            jobs: job_store::with_job(
                old(store)@.jobs,
                opened(
                    old(store)@.jobs_root,
                    job_store::fresh_id(now, pid, sequence),
                    conversation_id@,
                    sender@,
                    task@,
                    note@,
                    now,
                ),
            ),
            ..old(store)@
        }),
{
    let ghost before = store@;
    let ghost id = job_store::fresh_id(now, pid, sequence);
    proof {
        job_store::fresh_ids_are_valid(now, pid, sequence);
        job_store::job_index_found(before.jobs, before.place(id));
    }
    let job = store.create(task, sender, Some(conversation_id.to_string()), now, pid, sequence);
    let message = questions(job.record.id.as_str()).concat(note);
    let _ = job.transition(JobState::Clarifying, "Waiting for scope and acceptance clarification", now);
    job.converse(conversation_id, sender, "inbound", task, now);
    append_job_reply(job, conversation_id, message.as_str(), now);
    proof {
        let after = opened(before.jobs_root, id, conversation_id@, sender@, task@, note@, now);
        assert(store@.jobs =~= job_store::with_job(before.jobs, after));
        job_store::creation_adds_one_job(before, after);
    }
    message
}

// ---------------------------------------------------------------------------
// Runs
// ---------------------------------------------------------------------------

/// What is said of a job after a run.
pub open spec fn outcome_of(job: JobView) -> Seq<char> {
    if job.record.state is Complete {
        "✓ Job complete\n\n"@ + job.final_report
    } else {
        "Job "@ + job.record.id + " stopped in "@ + job.record.state.title() + ": "@ + job.record.message
    }
}

/// What is said of the job after a run.
pub fn outcome(job: &Job) -> (message: String)
    ensures
        message@ == outcome_of(job@),
{
    if job.record.state == JobState::Complete {
        "✓ Job complete\n\n".to_string().concat(job.final_report.as_str())
    } else {
        "Job ".to_string().concat(job.record.id.as_str()).concat(" stopped in ").concat(job.record.state.name().as_str()).concat(
            ": ",
        ).concat(job.record.message.as_str())
    }
}

/// The settings of the model that reviews, where one is enabled.
pub open spec fn reviewer_settings(project: ProjectConfig) -> Option<WorkerSettings> {
    if project.reviewers@.dom().contains("gemma"@) && project.reviewers@["gemma"@].enabled {
        Some(project.reviewers@["gemma"@])
    } else {
        None
    }
}

/// The model that reviews, where one is enabled.
pub fn configured_reviewer(project: &ProjectConfig) -> (reviewer: Option<GemmaReviewer>)
    requires
        project.reviewers.wf(),
    ensures
        match reviewer_settings(*project) {
            Some(settings) => {
                &&& reviewer is Some
                &&& reviewer->0.base_url@ == settings.base_url@
                &&& reviewer->0.model@ == settings.model@
            },
            None => reviewer is None,
        },
{
    match project.reviewers.get("gemma") {
        Some(settings) => if settings.enabled {
            Some(GemmaReviewer::new(settings.base_url.as_str(), settings.model.as_str()))
        } else {
            None
        },
        None => None,
    }
}

// ---------------------------------------------------------------------------
// Chats
// ---------------------------------------------------------------------------

/// The chats after a message of the user and the reply to it were kept in one of them. The message
/// may give the chat its title.
pub open spec fn with_exchange(
    chats: ChatsView,
    id: Seq<char>,
    message: Seq<char>,
    title: Seq<char>,
    reply: Seq<char>,
    now: u64,
) -> ChatsView {
    let heard = chats::with_message(chats, id, MessageView { role: "user"@, content: message, created_at: now });
    chats::with_message(
        chats::with_title(heard, id, title),
        id,
        MessageView { role: "assistant"@, content: reply, created_at: now },
    )
}

/// Keeping messages and titles changes no id of a chat.
pub proof fn exchanges_keep_ids(chats: ChatsView, id: Seq<char>, message: MessageView, title: Seq<char>)
    requires
        chats::ids(chats.chats).contains(id),
    ensures
        chats::ids(chats::with_message(chats, id, message).chats) == chats::ids(chats.chats),
        chats::ids(chats::with_title(chats, id, title).chats) == chats::ids(chats.chats),
{
    chats::chat_index_found(chats.chats, id);
    assert(chats::ids(chats::with_message(chats, id, message).chats) =~= chats::ids(chats.chats));
    assert(chats::ids(chats::with_title(chats, id, title).chats) =~= chats::ids(chats.chats));
}

/// Keeps a message of the user and the reply to it in a chat.
pub fn record_exchange(chats: &mut ChatStore, id: &str, message: &str, title: &str, reply: &str, now: u64) -> (result: Result<
    (),
    ChatError,
>)
    ensures
        if chats::ids(old(chats)@.chats).contains(id@) {
            result is Ok && final(chats)@ == with_exchange(old(chats)@, id@, message@, title@, reply@, now)
        } else {
            result is Err && *final(chats) == *old(chats)
        },
{
    let ghost start = chats@;
    if let Err(error) = chats::append(chats, id, "user", message, now) {
        return Err(error);
    }
    let ghost heard = chats@;
    proof {
        exchanges_keep_ids(start, id@, MessageView { role: "user"@, content: message@, created_at: now }, title@);
        exchanges_keep_ids(heard, id@, MessageView { role: "user"@, content: message@, created_at: now }, title@);
    }
    chats::update_title_from_user(chats, id, title);
    chats::append(chats, id, "assistant", reply, now)
}

/// What was said is read back: the last two messages of the chat are the message and the reply, and
/// every other chat has the messages that it had.
pub proof fn exchanges_are_read_back(
    chats: ChatsView,
    id: Seq<char>,
    other: Seq<char>,
    message: Seq<char>,
    title: Seq<char>,
    reply: Seq<char>,
    now: u64,
)
    requires
        chats::ids(chats.chats).contains(id),
    ensures
        chats::messages_of(with_exchange(chats, id, message, title, reply, now), id) == chats::messages_of(chats, id).push(
            MessageView { role: "user"@, content: message, created_at: now },
        ).push(MessageView { role: "assistant"@, content: reply, created_at: now }),
        other != id ==> chats::messages_of(with_exchange(chats, id, message, title, reply, now), other)
            == chats::messages_of(chats, other),
{
    let said = MessageView { role: "user"@, content: message, created_at: now };
    let heard = chats::with_message(chats, id, said);
    let titled = chats::with_title(heard, id, title);
    let replied = MessageView { role: "assistant"@, content: reply, created_at: now };
    exchanges_keep_ids(chats, id, said, title);
    exchanges_keep_ids(heard, id, said, title);
    chats::messages_are_read_back(chats, id, other, said);
    chats::messages_are_read_back(titled, id, other, replied);
    assert forall|i: int| 0 <= i < heard.chats.len() implies (#[trigger] heard.chats[i]).id == titled.chats[i].id by {
        assert(chats::ids(heard.chats)[i] == chats::ids(titled.chats)[i]);
    }
    chats::same_ids_same_index(heard.chats, titled.chats, id);
    chats::same_ids_same_index(heard.chats, titled.chats, other);
    chats::chat_index_found(heard.chats, id);
    chats::chat_index_found(heard.chats, other);
}

/// Only an approval approves: a job whose sender answers the questions awaits approval, a new job
/// waits for answers, and neither was approved by it. An approved job has the specification and the
/// criteria that were put up.
pub proof fn only_approvals_approve(
    job: JobView,
    jobs_root: Seq<char>,
    id: Seq<char>,
    conversation_id: Seq<char>,
    sender: Seq<char>,
    content: Seq<char>,
    criteria: Seq<CriterionView>,
    ending: Seq<char>,
    now: u64,
)
    ensures
        clarified(job, conversation_id, sender, content, criteria, ending, now).record.state is AwaitingApproval,
        clarified(job, conversation_id, sender, content, criteria, ending, now).record.approved_at == job.record.approved_at,
        opened(jobs_root, id, conversation_id, sender, content, ending, now).record.state is Clarifying,
        opened(jobs_root, id, conversation_id, sender, content, ending, now).record.approved_at is None,
        approved(job, conversation_id, sender, now).record.state is Approved,
        approved(job, conversation_id, sender, now).record.approved_at == Some(now),
        approved(job, conversation_id, sender, now).specification == job.specification,
        approved(job, conversation_id, sender, now).criteria == job.criteria,
{
}

/// Where each job is stored under its id, a sender approves no job but their own, and none that was not
/// put up for approval; and the approval of a job that awaits it is not refused.
pub proof fn senders_approve_their_own_jobs(
    store: StoreView,
    conversation_id: Seq<char>,
    sender: Seq<char>,
    heard_first: bool,
    now: u64,
    after: StoreView,
    outcome: Result<Option<int>, Seq<char>>,
)
    requires
        store.wf(),
        store.tidy(),
        approval_taken(store, conversation_id, sender, heard_first, now, after, outcome),
    ensures
        outcome is Ok,
        outcome->Ok_0 is None <==> forall|k: int| !#[trigger] store.wanted(k, Some(sender), JobState::AwaitingApproval),
        outcome->Ok_0 is None ==> after == store,
        outcome->Ok_0 matches Some(i) ==> {
            &&& store.newest_wanted(i, Some(sender), JobState::AwaitingApproval)
            &&& store.jobs[i].record.sender == sender
            &&& store.jobs[i].record.state is AwaitingApproval
            &&& after == (StoreView {
                jobs: store.jobs.update(i, approved(store.jobs[i], conversation_id, sender, now)),
                ..store
            })
        },
{
    if exists|k: int| #[trigger] store.wanted(k, Some(sender), JobState::AwaitingApproval) {
        let i = choose|i: int|
            #[trigger] store.newest_wanted(i, Some(sender), JobState::AwaitingApproval) && {
                let taken = approval(store, store.jobs[i].record.id, conversation_id, sender, heard_first, now);
                after == taken.0 && outcome == match taken.1 {
                    Ok(j) => Ok::<Option<int>, Seq<char>>(Some(j)),
                    Err(message) => Err::<Option<int>, Seq<char>>(message),
                }
            };
        job_store::tidy_jobs_are_found(store, i);
    }
}

/// Where each job is stored under its id, answers go to the newest job of the sender that waits for
/// them, and are not refused.
pub proof fn senders_answer_for_their_own_jobs(
    store: StoreView,
    conversation_id: Seq<char>,
    sender: Seq<char>,
    answers: Seq<char>,
    criteria: Seq<CriterionView>,
    ending: Seq<char>,
    heard_first: bool,
    now: u64,
    after: StoreView,
    outcome: Result<Option<Seq<char>>, Seq<char>>,
)
    requires
        store.wf(),
        store.tidy(),
        clarification_taken(
            store,
            conversation_id,
            sender,
            answers,
            criteria,
            ending,
            heard_first,
            now,
            after,
            outcome,
        ),
    ensures
        outcome is Ok,
        outcome->Ok_0 is None <==> forall|k: int| !#[trigger] store.wanted(k, Some(sender), JobState::Clarifying),
        outcome->Ok_0 is None ==> after == store,
        outcome->Ok_0 matches Some(reply) ==> exists|i: int| #[trigger]
            store.newest_wanted(i, Some(sender), JobState::Clarifying) && reply == offer(
                store.jobs[i].record.id,
                criteria,
                ending,
            ) && after == (StoreView {
                jobs: store.jobs.update(
                    i,
                    clarified(store.jobs[i], conversation_id, sender, answers, criteria, ending, now),
                ),
                ..store
            }),
{
    if exists|k: int| #[trigger] store.wanted(k, Some(sender), JobState::Clarifying) {
        let i = choose|i: int|
            #[trigger] store.newest_wanted(i, Some(sender), JobState::Clarifying) && {
                let taken = clarification(
                    store,
                    store.jobs[i].record.id,
                    conversation_id,
                    sender,
                    answers,
                    criteria,
                    ending,
                    heard_first,
                    now,
                );
                after == taken.0 && outcome == match taken.1 {
                    Ok(reply) => Ok::<Option<Seq<char>>, Seq<char>>(Some(reply)),
                    Err(message) => Err::<Option<Seq<char>>, Seq<char>>(message),
                }
            };
        job_store::tidy_jobs_are_found(store, i);
    }
}

/// What is put up for approval quotes the request, the answers and every criterion with its number; and
/// the sender is shown every criterion, the id of the job and what they have to say.
pub proof fn proposals_quote_request_and_answers(
    id: Seq<char>,
    request: Seq<char>,
    answers: Seq<char>,
    criteria: Seq<CriterionView>,
    ending: Seq<char>,
    i: int,
)
    ensures
        text::holds(proposal(request, answers, criteria), request),
        text::holds(proposal(request, answers, criteria), "\n\n## Clarification answers\n\n"@ + answers),
        0 <= i < criteria.len() ==> text::holds(
            proposal(request, answers, criteria),
            text::digits((i + 1) as nat) + ". "@ + criteria[i].description,
        ),
        text::holds(offer(id, criteria, ending), id),
        text::holds(offer(id, criteria, ending), ending),
        0 <= i < criteria.len() ==> text::holds(
            offer(id, criteria, ending),
            text::digits((i + 1) as nat) + ". "@ + criteria[i].description,
        ),
{
    let list = text::joined(numbered(criteria), "\n"@);
    let start = "# Proposed job specification\n\n## Original request\n\n"@;
    let a = start + request;
    let b = a + "\n\n## Clarification answers\n\n"@ + answers;
    let whole = b + "\n\n## Acceptance criteria\n\n"@ + list;
    text::parts_are_held(start, request, Seq::empty());
    assert(start + request + Seq::<char>::empty() =~= a);
    text::additions_are_held(a, "\n\n## Clarification answers\n\n"@, answers, request);
    text::additions_are_held(b, "\n\n## Acceptance criteria\n\n"@, list, request);
    text::holding_is_transitive(whole, b, "\n\n## Clarification answers\n\n"@ + answers);
    let first = "Proposed acceptance criteria for "@ + id;
    let second = first + ":\n"@ + list;
    let told = second + ending;
    text::parts_are_held("Proposed acceptance criteria for "@, id, Seq::empty());
    assert("Proposed acceptance criteria for "@ + id + Seq::<char>::empty() =~= first);
    text::additions_are_held(first, ":\n"@, list, id);
    text::parts_are_held(Seq::empty(), second, ending);
    assert(Seq::<char>::empty() + second + ending =~= told);
    text::parts_are_held(second, ending, Seq::empty());
    assert(second + ending + Seq::<char>::empty() =~= told);
    text::holding_is_transitive(told, second, id);
    text::holding_is_transitive(told, second, list);
    if 0 <= i < criteria.len() {
        let lines = numbered(criteria);
        text::joined_texts_are_held(lines, "\n"@, i);
        assert(lines[i] == text::digits((i + 1) as nat) + ". "@ + criteria[i].description);
        text::holding_is_transitive(whole, list, lines[i]);
        text::holding_is_transitive(told, list, lines[i]);
    }
}

/// What is said about a job is kept with it, in order: the request and the questions of a new job, the
/// answers and the offer of one that was clarified, the approval of one that was approved.
pub proof fn what_is_said_is_kept(
    job: JobView,
    jobs_root: Seq<char>,
    id: Seq<char>,
    conversation_id: Seq<char>,
    sender: Seq<char>,
    content: Seq<char>,
    criteria: Seq<CriterionView>,
    note: Seq<char>,
    now: u64,
)
    ensures
        ({
            let new = opened(jobs_root, id, conversation_id, sender, content, note, now);
            &&& new.request == content
            &&& new.record.sender == sender
            &&& new.record.id == id
            &&& new.conversation.len() == 2
            &&& new.conversation[0].content == content && new.conversation[0].sender == sender
                && new.conversation[0].direction == "inbound"@
            &&& new.conversation[1].content == questions_for(id) + note && new.conversation[1].sender == "bender"@
                && new.conversation[1].direction == "outbound"@
            &&& new.conversation[0].conversation_id == conversation_id && new.conversation[1].conversation_id == conversation_id
        }),
        ({
            let after = clarified(job, conversation_id, sender, content, criteria, note, now);
            &&& after.specification == proposal(job.request, content, criteria)
            &&& after.criteria == criteria
            &&& after.conversation.len() == job.conversation.len() + 2
            &&& after.conversation[job.conversation.len() as int].content == content
            &&& after.conversation[job.conversation.len() as int].direction == "inbound"@
            &&& after.conversation.last().content == offer(job.record.id, criteria, note)
            &&& after.conversation.last().direction == "outbound"@
            &&& after.request == job.request
        }),
        ({
            let after = approved(job, conversation_id, sender, now);
            &&& after.conversation.len() == job.conversation.len() + 1
            &&& after.conversation.last().content == "APPROVE"@
            &&& after.conversation.last().sender == sender
            &&& after.conversation.last().direction == "inbound"@
            &&& after.request == job.request
        }),
{
}

/// The sender of a job that completed gets its report; of one that did not they are told its id, its state
/// and why.
pub proof fn senders_learn_how_jobs_ended(job: JobView)
    ensures
        job.record.state is Complete ==> text::holds(outcome_of(job), job.final_report),
        !(job.record.state is Complete) ==> text::holds(outcome_of(job), job.record.id) && text::holds(
            outcome_of(job),
            " stopped in "@ + job.record.state.title(),
        ) && text::holds(outcome_of(job), ": "@ + job.record.message),
{
    let start = "✓ Job complete\n\n"@;
    text::parts_are_held(start, job.final_report, Seq::empty());
    assert(start + job.final_report + Seq::<char>::empty() =~= start + job.final_report);
    let a = "Job "@ + job.record.id;
    let b = a + " stopped in "@ + job.record.state.title();
    let c = b + ": "@ + job.record.message;
    text::parts_are_held("Job "@, job.record.id, Seq::empty());
    assert("Job "@ + job.record.id + Seq::<char>::empty() =~= a);
    text::additions_are_held(a, " stopped in "@, job.record.state.title(), job.record.id);
    text::additions_are_held(b, ": "@, job.record.message, job.record.id);
    text::holding_is_transitive(c, b, " stopped in "@ + job.record.state.title());
}

/// Whoever asks for a job is asked by what it is known to be done, what limits it and which checks it
/// needs, under its id.
pub proof fn new_jobs_are_asked_about(id: Seq<char>)
    ensures
        text::holds(questions_for(id), id),
        text::holds(questions_for(id), "What observable behavior proves this is complete?"@),
        text::holds(questions_for(id), "Are there compatibility, security, or scope constraints?"@),
        text::holds(questions_for(id), "Which configured checks are required?"@),
{
    let start = "Before I begin "@;
    let one = "What observable behavior proves this is complete?"@;
    let two = "Are there compatibility, security, or scope constraints?"@;
    let three = "Which configured checks are required?"@;
    let a = ":\n1. "@;
    let b = "\n2. "@;
    let c = "\n3. "@;
    let end = "\n\nReply with the answers; I will persist a specification for approval."@;
    reveal_strlit("What observable behavior proves this is complete?");
    reveal_strlit("Are there compatibility, security, or scope constraints?");
    reveal_strlit("Which configured checks are required?");
    reveal_strlit(":\n1. ");
    reveal_strlit("\n2. ");
    reveal_strlit("\n3. ");
    reveal_strlit("\n\nReply with the answers; I will persist a specification for approval.");
    reveal_strlit(
        ":\n1. What observable behavior proves this is complete?\n2. Are there compatibility, security, or scope constraints?\n3. Which configured checks are required?\n\nReply with the answers; I will persist a specification for approval.",
    );
    let all = ":\n1. What observable behavior proves this is complete?\n2. Are there compatibility, security, or scope constraints?\n3. Which configured checks are required?\n\nReply with the answers; I will persist a specification for approval."@;
    let asked = a + one + b + two + c + three;
    assert(all =~= asked + end);
    text::additions_are_held(a + one + b + two, c, three, two);
    text::additions_are_held(a + one, b, two, one);
    text::additions_are_held(Seq::empty(), a, one, a);
    assert(Seq::<char>::empty() + a + one =~= a + one);
    text::additions_are_held(a + one + b + two, c, three, one);
    text::parts_are_held(Seq::empty(), asked, end);
    assert(Seq::<char>::empty() + asked + end =~= all);
    text::additions_are_held(start, id, all, id);
    text::parts_are_held(start, id, all);
    let whole = start + id + all;
    text::holding_is_transitive(whole, all, asked);
    text::holding_is_transitive(whole, asked, one);
    text::holding_is_transitive(whole, asked, two);
    text::holding_is_transitive(whole, asked, three);
}

} // verus!
