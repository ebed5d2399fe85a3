//! Private messages: who may send them and what they do.

use vstd::prelude::*;

use crate::chats;
use crate::chats::{ChatError, ChatStore, ChatsView};
use crate::config;
use crate::config::Config;
use crate::identity;
use crate::job_store;
use crate::job_store::{JobStore, StoreView};
use crate::jobs;
use crate::jobs::{AcceptanceCriterion, CriterionView, Job, JobError, JobState};
use crate::model;
use crate::replies;
use crate::text;

verus! {

/// The kind of an event that is a private direct message.
pub const PRIVATE_DIRECT_MESSAGE: u16 = 14;

/// Whether a message comes from who controls the orchestrator, and is private.
pub open spec fn authorized(config: Config, sender: Seq<char>, kind: u16) -> bool {
    &&& kind == PRIVATE_DIRECT_MESSAGE
    &&& config::set_value(config.controller_npub) is Some
    &&& identity::key_of_npub(config::set_value(config.controller_npub)->0) == Some(sender)
}

/// Whether a message comes from who controls the orchestrator, and is private. The sender is given by
/// the hexadecimal form of their key.
pub fn authorized_controller(config: &Config, sender: &str, kind: u16) -> (answer: bool)
    ensures
        answer == authorized(*config, sender@, kind),
{
    if kind != PRIVATE_DIRECT_MESSAGE {
        return false;
    }
    match config.controller() {
        Ok(Some(controller)) => text::same(controller.as_str(), sender),
        _ => false,
    }
}

/// Under which name the jobs of a sender are kept: the configured one, else the key itself.
pub fn sender_identity(config: &Config, sender: &str) -> (name: String)
    ensures
        name@ == match config.controller_npub {
            Some(npub) => npub@,
            None => sender@,
        },
{
    match &config.controller_npub {
        Some(npub) => npub.clone(),
        None => sender.to_string(),
    }
}

/// The reply to a message that could not be handled.
pub fn error_reply(error: &str) -> (reply: String)
    ensures
        reply@ == "Bender error: "@ + error@,
{
    "Bender error: ".to_string().concat(error)
}

/// The criteria of a job that was asked for by private message.
pub open spec fn message_criteria() -> Seq<CriterionView> {
    seq![
        jobs::fresh_criterion(
            "implementation"@,
            "The clarified request is implemented within the selected workspace."@,
            seq!["required_check"@],
        ),
        jobs::fresh_criterion(
            "tests"@,
            "All configured required checks pass without disabling legitimate tests."@,
            seq!["required_check"@],
        ),
        jobs::fresh_criterion(
            "evidence"@,
            "Bender records changed files, worker results, and check evidence."@,
            seq!["required_check"@],
        ),
    ]
}

/// The criteria of a job that was asked for by private message.
pub fn standard_criteria() -> (criteria: Vec<AcceptanceCriterion>)
    ensures
        model::views(criteria@) == message_criteria(),
{
    let criteria = vec![
        replies::checked_criterion(
            "implementation",
            "The clarified request is implemented within the selected workspace.",
        ),
        replies::checked_criterion(
            "tests",
            "All configured required checks pass without disabling legitimate tests.",
        ),
        replies::checked_criterion("evidence", "Bender records changed files, worker results, and check evidence."),
    ];
    assert(model::views(criteria@) =~= message_criteria());
    criteria
}

/// What stands behind the criteria that are put up for approval.
pub open spec fn offer_ending() -> Seq<char> {
    "\n\nReply APPROVE to begin. No worker or project check will run before approval."@
}

/// What comes of a message: a reply, or a job that has to be run before there is one.
#[derive(Debug)]
pub enum Received {
    Reply { message: String, keep_chats: bool },
    Run { chat_id: String, job: usize },
}

/// Whether the message is the word, in whichever case.
pub open spec fn says(message: Seq<char>, word: Seq<char>) -> bool {
    text::lowered(text::trimmed(message)) == text::lowered(word)
}

/// Whether a store and a reply, or the message of what went wrong, are what comes of a message that
/// neither starts a chat nor approves a job: a job that waits for answers gets them, else a job is
/// opened.
pub open spec fn task_taken(
    before: StoreView,
    task: Seq<char>,
    sender: Seq<char>,
    chat_id: Seq<char>,
    now: u64,
    id: Seq<char>,
    after: StoreView,
    reply: Result<Seq<char>, Seq<char>>,
) -> bool {
    if exists|k: int| #[trigger] before.wanted(k, Some(sender), JobState::Clarifying) {
        replies::clarification_taken(
            before,
            chat_id,
            sender,
            task,
            message_criteria(),
            offer_ending(),
            true,
            now,
            after,
            match reply {
                Ok(message) => Ok(Some(message)),
                Err(message) => Err(message),
            },
        )
    } else {
        &&& reply == Ok::<Seq<char>, Seq<char>>(replies::questions_for(id))
        &&& after == (StoreView {
            jobs: job_store::with_job(
                before.jobs,
                replies::opened(before.jobs_root, id, chat_id, sender, task, Seq::empty(), now),
            ),
            ..before
        })
    }
}

/// The position of the job that a message approved, or the message of what went wrong.
pub open spec fn approval_outcome(result: Result<Received, JobError>) -> Result<Option<int>, Seq<char>> {
    match result {
        Ok(Received::Run { chat_id, job }) => Ok(Some(job as int)),
        Ok(Received::Reply { message, keep_chats }) => Ok(None),
        Err(error) => Err(error.text()),
    }
}

/// Takes a message of who controls the orchestrator.
pub fn handle_message(
    store: &mut JobStore,
    chats: &mut ChatStore,
    message: &str,
    sender: &str,
    now: u64,
    pid: u32,
    sequence: u64,
) -> (result: Result<Received, JobError>)
    requires
        old(store)@.wf(),
    ensures
        final(store)@.wf(),
        if says(message@, "/newchat"@) {
            &&& result matches Ok(Received::Reply { message: reply, keep_chats }) && reply@ == "Started a new chat."@
                && keep_chats
            &&& *final(store) == *old(store)
            &&& exists|id: Seq<char>| #[trigger]
                chats::gets_id(chats::ids(old(chats)@.chats), now, id) && final(chats)@ == (ChatsView {
                    active_nostr: Some(id),
                    ..chats::with_chat(old(chats)@, id, "Nostr DM"@)
                })
        } else if says(message@, "APPROVE"@) {
            exists|id: Seq<char>| #[trigger]
                chats::nostr_chat(old(chats)@, now, final(chats)@, id) && replies::approval_taken(
                    old(store)@,
                    id,
                    sender@,
                    false,
                    now,
                    final(store)@,
                    approval_outcome(result),
                ) && match result {
                    Ok(Received::Run { chat_id, job }) => chat_id@ == id && job < final(store).jobs@.len(),
                    Ok(Received::Reply { message: reply, keep_chats }) => reply@
                        == "There is no job awaiting your approval."@ && !keep_chats,
                    Err(error) => true,
                }
        } else {
            match result {
                Ok(Received::Reply { message: reply, keep_chats }) => {
                    &&& keep_chats
                    &&& exists|id: Seq<char>, chosen: ChatsView| #[trigger]
                        chats::nostr_chat(old(chats)@, now, chosen, id) && final(chats)@ == replies::with_exchange(
                            chosen,
                            id,
                            text::trimmed(message@),
                            text::trimmed(message@),
                            reply@,
                            now,
                        ) && task_taken(
                            old(store)@,
                            text::trimmed(message@),
                            sender@,
                            id,
                            now,
                            job_store::fresh_id(now, pid, sequence),
                            final(store)@,
                            Ok(reply@),
                        )
                },
                Ok(Received::Run { .. }) => false,
                Err(error) => exists|id: Seq<char>| #[trigger]
                    chats::nostr_chat(old(chats)@, now, final(chats)@, id) && task_taken(
                        old(store)@,
                        text::trimmed(message@),
                        sender@,
                        id,
                        now,
                        job_store::fresh_id(now, pid, sequence),
                        final(store)@,
                        Err(error.text()),
                    ),
            }
        },
{
    let trimmed = text::trim(message);
    if text::same_ignoring_case(trimmed.as_str(), "/newchat") {
        let _ = chats::new_nostr_chat(chats, now);
        return Ok(Received::Reply { message: "Started a new chat.".to_string(), keep_chats: true });
    }
    let ghost talks = chats@;
    let chat_id = chats::ensure_nostr_chat(chats, now);
    let ghost chosen = chats@;
    assert(chats::nostr_chat(talks, now, chosen, chat_id@));
    if text::same_ignoring_case(trimmed.as_str(), "APPROVE") {
        return match replies::approve_newest(store, chat_id.as_str(), sender, false, now) {
            Ok(Some(job)) => Ok(Received::Run { chat_id, job }),
            Ok(None) => Ok(
                Received::Reply { message: "There is no job awaiting your approval.".to_string(), keep_chats: false },
            ),
            Err(error) => Err(error),
        };
    }
    proof {
        if chats::known(talks, talks.active_nostr) {
            assert(chats::ids(chosen.chats).contains(chat_id@));
        } else {
            chats::new_chats_have_ids_of_their_own(talks, now, chat_id@, "Nostr DM"@);
        }
    }
    let criteria = standard_criteria();
    let ending = "\n\nReply APPROVE to begin. No worker or project check will run before approval.";
    let clarified = replies::clarify_newest(
        store,
        chat_id.as_str(),
        sender,
        trimmed.as_str(),
        &criteria,
        ending,
        true,
        now,
    );
    let reply = match clarified {
        Err(error) => {
            return Err(error);
        },
        Ok(Some(reply)) => reply,
        Ok(None) => {
            let reply = replies::open_job(store, chat_id.as_str(), sender, trimmed.as_str(), "", now, pid, sequence);
            proof {
                reveal_strlit("");
                assert(""@ =~= Seq::<char>::empty());
                assert(reply@ =~= replies::questions_for(job_store::fresh_id(now, pid, sequence)));
            }
            reply
        },
    };
    let _ = replies::record_exchange(chats, chat_id.as_str(), trimmed.as_str(), trimmed.as_str(), reply.as_str(), now);
    Ok(Received::Reply { message: reply, keep_chats: true })
}

/// Tells the sender of a job how its run ended.
pub fn finish_message(job: &mut Job, chats: &mut ChatStore, chat_id: &str, message: &str, now: u64) -> (result: Result<
    String,
    ChatError,
>)
    ensures
        final(job)@ == replies::answered(old(job)@, chat_id@, replies::outcome_of(old(job)@), now),
        if chats::ids(old(chats)@.chats).contains(chat_id@) {
            &&& result is Ok
            &&& result->Ok_0@ == replies::outcome_of(old(job)@)
            &&& final(chats)@ == replies::with_exchange(
                old(chats)@,
                chat_id@,
                text::trimmed(message@),
                text::trimmed(message@),
                replies::outcome_of(old(job)@),
                now,
            )
        } else {
            result is Err && *final(chats) == *old(chats)
        },
{
    let reply = replies::outcome(job);
    replies::append_job_reply(job, chat_id, reply.as_str(), now);
    let trimmed = text::trim(message);
    match replies::record_exchange(chats, chat_id, trimmed.as_str(), trimmed.as_str(), reply.as_str(), now) {
        Ok(_) => Ok(reply),
        Err(error) => Err(error),
    }
}

// ---------------------------------------------------------------------------
// What always holds
// ---------------------------------------------------------------------------

/// Whoever has another key than the configured controller is not authorized, whatever they send; nor
/// is anybody where no controller is configured, nor any message that is not private.
pub proof fn only_the_controller_is_authorized(config: Config, sender: Seq<char>, other: Seq<char>, kind: u16)
    ensures
        authorized(config, sender, kind) && other != sender ==> !authorized(config, other, kind),
        config::set_value(config.controller_npub) is None ==> !authorized(config, sender, kind),
        kind != PRIVATE_DIRECT_MESSAGE ==> !authorized(config, sender, kind),
{
}

/// Only private direct messages count, which are of kind 14, and only those of the configured controller.
pub proof fn private_messages_are_of_one_kind(config: Config, sender: Seq<char>, kind: u16)
    ensures
        authorized(config, sender, kind) ==> kind == 14,
        kind == 14 && config.controller_npub is Some && !text::blank(config.controller_npub->0@) && identity::key_of_npub(
            config.controller_npub->0@,
        ) == Some(sender) ==> authorized(config, sender, kind),
{
}

/// A job that is asked for by private message has three criteria, each of which a required check has to
/// back.
pub proof fn messages_ask_for_checked_work(i: int)
    requires
        0 <= i < message_criteria().len(),
    ensures
        message_criteria().len() == 3,
        message_criteria()[i].required_evidence == seq!["required_check"@],
        message_criteria()[i].status is Unverified,
        message_criteria()[0].id == "implementation"@,
        message_criteria()[1].id == "tests"@,
        message_criteria()[2].id == "evidence"@,
{
}

} // verus!
