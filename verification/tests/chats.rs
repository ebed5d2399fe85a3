use bender::chats::{
    append, conversation_prompt, ensure_nostr_chat, ensure_web_chat, is_known, messages, new_nostr_chat, new_web_chat, path,
    set_active_web, summaries, update_title_from_user, ChatError, ChatStore,
};
use bender::replies::record_exchange;

#[test]
fn chats_get_ids_of_their_own() {
    let mut store = ChatStore::default();
    assert_eq!(new_web_chat(&mut store, 7), "chat-7");
    assert_eq!(new_web_chat(&mut store, 7), "chat-7-2");
    assert_eq!(new_nostr_chat(&mut store, 7), "chat-7-3");
    assert_eq!(new_web_chat(&mut store, 8), "chat-8");
    assert_eq!(store.active_web_chat_id.as_deref(), Some("chat-8"));
    assert_eq!(store.active_nostr_chat_id.as_deref(), Some("chat-7-3"));
}

#[test]
fn active_chats_are_kept_while_they_exist() {
    let mut store = ChatStore::default();
    let web = ensure_web_chat(&mut store, 1);
    assert_eq!(ensure_web_chat(&mut store, 2), web);
    let nostr = ensure_nostr_chat(&mut store, 3);
    assert_ne!(nostr, web);
    assert_eq!(ensure_nostr_chat(&mut store, 4), nostr);
    store.chats.clear();
    assert_eq!(ensure_web_chat(&mut store, 5), "chat-5");
}

#[test]
fn messages_are_read_back_in_order() {
    let mut store = ChatStore::default();
    let id = new_web_chat(&mut store, 1);
    let other = new_web_chat(&mut store, 1);
    append(&mut store, &id, "user", "hello", 2).unwrap();
    append(&mut store, &id, "assistant", "hi", 3).unwrap();
    let kept = messages(&store, &id);
    assert_eq!(kept.len(), 2);
    assert_eq!((kept[1].role.as_str(), kept[1].content.as_str(), kept[1].created_at), ("assistant", "hi", 3));
    assert!(messages(&store, &other).is_empty());
    assert!(messages(&store, "chat-none").is_empty());
    assert_eq!(append(&mut store, "chat-none", "user", "x", 4).unwrap_err(), ChatError::NotFound);
    assert_eq!(set_active_web(&mut store, "chat-none").unwrap_err().message(), "chat not found");
    set_active_web(&mut store, &id).unwrap();
    assert_eq!(store.active_web_chat_id.as_deref(), Some(id.as_str()));
    assert!(is_known(&store, &id));
    assert!(!is_known(&store, "chat-none"));
}

#[test]
fn exchanges_are_kept_with_a_title() {
    let mut store = ChatStore::default();
    let id = new_web_chat(&mut store, 1);
    record_exchange(&mut store, &id, "shown", "  the\n title ", "reply", 2).unwrap();
    assert_eq!(store.chats[0].title, "the title");
    let kept = messages(&store, &id);
    assert_eq!(kept[0].content, "shown");
    assert_eq!(kept[1].content, "reply");
    assert!(record_exchange(&mut store, "chat-none", "a", "b", "c", 3).is_err());
}

#[test]
fn titles_come_from_the_first_message() {
    let mut store = ChatStore::default();
    let id = new_web_chat(&mut store, 1);
    update_title_from_user(&mut store, &id, "   ");
    assert_eq!(store.chats[0].title, "New chat");
    let long = "word ".repeat(20);
    update_title_from_user(&mut store, &id, &long);
    assert_eq!(store.chats[0].title, format!("{}...", &long[..48]));
    update_title_from_user(&mut store, &id, "other");
    assert_eq!(store.chats[0].title, format!("{}...", &long[..48]));
    update_title_from_user(&mut store, "chat-none", "other");
}

#[test]
fn summaries_are_newest_first() {
    let mut store = ChatStore::default();
    let first = new_web_chat(&mut store, 1);
    let second = new_web_chat(&mut store, 2);
    append(&mut store, &first, "user", "x", 50).unwrap();
    append(&mut store, &second, "user", "y", 40).unwrap();
    let shown: Vec<(String, u64)> = summaries(&store).into_iter().map(|s| (s.id, s.updated_at)).collect();
    assert_eq!(shown, vec![(first, 50), (second, 40)]);
}

#[test]
fn prompts_hold_the_conversation() {
    let mut store = ChatStore::default();
    let id = new_web_chat(&mut store, 1);
    append(&mut store, &id, "user", "hello", 2).unwrap();
    assert!(conversation_prompt(&store, &id).contains("hello"));
    assert_eq!(path("/w"), "/w/.bender/chats.json");
}
