use bender::chats::ChatStore;
use bender::config::Config;
use bender::identity::generate;
use bender::jobs::{JobState, JobStore};
use bender::nostr_agent::{
    authorized_controller, error_reply, finish_message, handle_message, sender_identity, standard_criteria, Received,
    PRIVATE_DIRECT_MESSAGE,
};
use bender::replies::numbered_criteria;

const TEXT_NOTE: u16 = 1;

#[test]
fn only_configured_nostr_controller_is_authorized() {
    let controller = generate();
    let stranger = generate();
    let mut config = Config::for_keys(generate());
    config.controller_npub = Some(controller.public_key.clone());
    let mut accepted: Vec<&str> = Vec::new();
    for (sender, kind, message) in [
        (&controller.public_hex, PRIVATE_DIRECT_MESSAGE, "approved task"),
        (&stranger.public_hex, PRIVATE_DIRECT_MESSAGE, "malicious task"),
        (&controller.public_hex, TEXT_NOTE, "public task"),
    ] {
        if authorized_controller(&config, sender, kind) {
            accepted.push(message);
        }
    }
    assert_eq!(accepted, vec!["approved task"]);
}

#[test]
fn nobody_is_authorized_without_a_controller() {
    let someone = generate();
    let mut config = Config::for_keys(generate());
    assert!(!authorized_controller(&config, &someone.public_hex, PRIVATE_DIRECT_MESSAGE));
    config.controller_npub = Some("npub-broken".into());
    assert!(!authorized_controller(&config, &someone.public_hex, PRIVATE_DIRECT_MESSAGE));
    assert_eq!(config.controller().unwrap_err().message(), "invalid controller_npub");
}

#[test]
fn known_keys_are_compared_in_hexadecimal_form() {
    let mut config = Config::for_keys(generate());
    config.controller_npub = Some("npub14f8usejl26twx0dhuxjh9cas7keav9vr0v8nvtwtrjqx3vycc76qqh9nsy".into());
    assert!(authorized_controller(
        &config,
        "aa4fc8665f5696e33db7e1a572e3b0f5b3d615837b0f362dcb1c8068b098c7b4",
        14
    ));
}

fn reply(received: Received) -> (String, bool) {
    match received {
        Received::Reply { message, keep_chats } => (message, keep_chats),
        Received::Run { .. } => panic!("a reply was expected"),
    }
}

#[test]
fn a_job_goes_from_task_to_approval() {
    let mut store = JobStore::new("/w");
    let mut chats = ChatStore::default();
    let (asked, _) = reply(handle_message(&mut store, &mut chats, " Add a button ", "npub1x", 100, 1, 1).unwrap());
    assert!(asked.starts_with("Before I begin job-100-1-1:\n1. What observable behavior"));
    assert_eq!(store.jobs[0].record.state, JobState::Clarifying);
    assert_eq!(store.jobs[0].request(), "Add a button");
    let (offered, _) = reply(handle_message(&mut store, &mut chats, "It is blue", "npub1x", 101, 1, 2).unwrap());
    assert_eq!(
        offered,
        "Proposed acceptance criteria for job-100-1-1:\n1. The clarified request is implemented within the selected workspace.\n2. All configured required checks pass without disabling legitimate tests.\n3. Bender records changed files, worker results, and check evidence.\n\nReply APPROVE to begin. No worker or project check will run before approval."
    );
    assert_eq!(store.jobs[0].record.state, JobState::AwaitingApproval);
    assert_eq!(
        store.jobs[0].specification(),
        "# Proposed job specification\n\n## Original request\n\nAdd a button\n\n## Clarification answers\n\nIt is blue\n\n## Acceptance criteria\n\n1. The clarified request is implemented within the selected workspace.\n2. All configured required checks pass without disabling legitimate tests.\n3. Bender records changed files, worker results, and check evidence."
    );
    let (refused, keep) = reply(handle_message(&mut store, &mut chats, "APPROVE", "npub1other", 102, 1, 3).unwrap());
    assert_eq!(refused, "There is no job awaiting your approval.");
    assert!(!keep);
    let (chat_id, job) = match handle_message(&mut store, &mut chats, " approve ", "npub1x", 103, 1, 4).unwrap() {
        Received::Run { chat_id, job } => (chat_id, job),
        Received::Reply { message, .. } => panic!("{message}"),
    };
    assert_eq!(job, 0);
    assert_eq!(store.jobs[0].record.state, JobState::Approved);
    assert_eq!(store.jobs[0].record.approved_at, Some(103));
    store.jobs[0].transition(JobState::Blocked, "stuck", 104).unwrap();
    let said = finish_message(&mut store.jobs[0], &mut chats, &chat_id, "approve", 105).unwrap();
    assert_eq!(said, "Job job-100-1-1 stopped in Blocked: stuck");
    assert_eq!(store.jobs[0].conversation.last().unwrap().sender, "bender");
    assert!(finish_message(&mut store.jobs[0], &mut chats, "chat-none", "approve", 105).is_err());
}

#[test]
fn new_chats_are_started_on_request() {
    let mut store = JobStore::new("/w");
    let mut chats = ChatStore::default();
    let (said, keep) = reply(handle_message(&mut store, &mut chats, "/NewChat", "npub1x", 100, 1, 1).unwrap());
    assert_eq!(said, "Started a new chat.");
    assert!(keep);
    assert_eq!(chats.chats.len(), 1);
    assert_eq!(chats.chats[0].title, "Nostr DM");
    assert!(store.jobs.is_empty());
}

#[test]
fn senders_are_named_by_the_configuration() {
    let mut config = Config::for_keys(generate());
    assert_eq!(sender_identity(&config, "hex"), "hex");
    config.controller_npub = Some("npub1x".into());
    assert_eq!(sender_identity(&config, "hex"), "npub1x");
    assert_eq!(error_reply("boom"), "Bender error: boom");
    assert!(numbered_criteria(&standard_criteria()).starts_with("1. The clarified"));
}

#[test]
fn messages_about_records_that_are_stored_elsewhere_are_refused() {
    let mut store = JobStore::new("/w");
    let mut chats = ChatStore::default();
    store.create("task", "npub1x", None, 10, 1, 1);
    store.jobs[0].record.state = JobState::Complete;
    store.create("task", "npub1x", None, 20, 1, 2);
    store.jobs[1].record.id = "job-10-1-1".into();
    store.jobs[1].record.state = JobState::AwaitingApproval;
    let refused = handle_message(&mut store, &mut chats, "APPROVE", "npub1x", 30, 1, 3).unwrap_err();
    assert_eq!(refused.message(), "job is not awaiting approval");
    assert!(store.jobs[0].conversation.is_empty());
    store.jobs[1].record.state = JobState::Clarifying;
    let refused = handle_message(&mut store, &mut chats, "It is blue", "npub1x", 31, 1, 4).unwrap_err();
    assert_eq!(refused.message(), "cannot transition terminal job job-10-1-1");
    assert_eq!(store.jobs[0].conversation.len(), 1);
    assert_eq!(store.jobs[0].conversation[0].content, "It is blue");
    assert_eq!(store.jobs[0].criteria.len(), 3);
    assert!(store.jobs[1].conversation.is_empty());
}
