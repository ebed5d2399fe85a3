//! Chats: their messages, titles and which of them are active.

use vstd::prelude::*;

use crate::lists;
use crate::model;
use crate::paths;
use crate::text;

verus! {

/// A message of a chat.
#[derive(Debug)]
pub struct ChatMessage {
    pub role: String,
    pub content: String,
    pub created_at: u64,
}

/// A chat.
#[derive(Debug)]
pub struct Chat {
    pub id: String,
    pub title: String,
    pub messages: Vec<ChatMessage>,
}

/// The chats of a project.
#[derive(Debug)]
pub struct ChatStore {
    pub active_web_chat_id: Option<String>,
    pub active_nostr_chat_id: Option<String>,
    pub chats: Vec<Chat>,
}

/// What a list of chats shows of a chat.
#[derive(Debug)]
pub struct ChatSummary {
    pub id: String,
    pub title: String,
    pub updated_at: u64,
}

/// The content of a message.
pub struct MessageView {
    pub role: Seq<char>,
    pub content: Seq<char>,
    pub created_at: u64,
}

impl View for ChatMessage {
    type V = MessageView;

    open spec fn view(&self) -> MessageView {
        MessageView { role: self.role@, content: self.content@, created_at: self.created_at }
    }
}

impl Clone for ChatMessage {
    fn clone(&self) -> (copy: Self)
        ensures
            copy@ == self@,
    {
        ChatMessage { role: self.role.clone(), content: self.content.clone(), created_at: self.created_at }
    }
}

/// The content of a chat.
pub struct ChatView {
    pub id: Seq<char>,
    pub title: Seq<char>,
    pub messages: Seq<MessageView>,
}

impl View for Chat {
    type V = ChatView;

    open spec fn view(&self) -> ChatView {
        ChatView { id: self.id@, title: self.title@, messages: model::views(self.messages@) }
    }
}

/// The content of the chats of a project.
pub struct ChatsView {
    pub active_web: Option<Seq<char>>,
    pub active_nostr: Option<Seq<char>>,
    pub chats: Seq<ChatView>,
}

impl View for ChatStore {
    type V = ChatsView;

    open spec fn view(&self) -> ChatsView {
        ChatsView {
            active_web: model::view_of(self.active_web_chat_id),
            active_nostr: model::view_of(self.active_nostr_chat_id),
            chats: model::views(self.chats@),
        }
    }
}

/// The content of a summary.
pub struct SummaryView {
    pub id: Seq<char>,
    pub title: Seq<char>,
    pub updated_at: u64,
}

impl View for ChatSummary {
    type V = SummaryView;

    open spec fn view(&self) -> SummaryView {
        SummaryView { id: self.id@, title: self.title@, updated_at: self.updated_at }
    }
}

impl Default for ChatStore {
    fn default() -> (store: Self)
        ensures
            store@ == (ChatsView { active_web: None, active_nostr: None, chats: Seq::empty() }),
    {
        let store = ChatStore { active_web_chat_id: None, active_nostr_chat_id: None, chats: Vec::new() };
        assert(store@.chats =~= Seq::empty());
        store
    }
}

/// Where the chats of a project are stored.
pub fn path(project_root: &str) -> (path: String)
    ensures
        path@ == paths::joined_path(paths::joined_path(project_root@, ".bender"@), "chats.json"@),
{
    paths::join(paths::join(project_root, ".bender").as_str(), "chats.json")
}

/// There is no chat with the id.
#[derive(Debug, Clone, Copy, PartialEq, Eq, Structural)]
pub enum ChatError {
    NotFound,
}

impl ChatError {
    /// The message of the error.
    pub fn message(&self) -> (message: String)
        ensures
            message@ == "chat not found"@,
    {
        "chat not found".to_string()
    }
}

// ---------------------------------------------------------------------------
// Finding chats
// ---------------------------------------------------------------------------

/// The ids of chats.
pub open spec fn ids(chats: Seq<ChatView>) -> Seq<Seq<char>> {
    Seq::new(chats.len(), |i: int| chats[i].id)
}

/// The position of the first chat with the id, or the number of chats where there is none.
pub open spec fn chat_index(chats: Seq<ChatView>, id: Seq<char>) -> int
    decreases chats.len(),
{
    if chats.len() == 0 || chats.first().id == id {
        0
    } else {
        1 + chat_index(chats.drop_first(), id)
    }
}

proof fn chat_index_is(chats: Seq<ChatView>, id: Seq<char>, k: int)
    requires
        0 <= k <= chats.len(),
        forall|i: int| 0 <= i < k ==> (#[trigger] chats[i]).id != id,
        k < chats.len() ==> chats[k].id == id,
    ensures
        chat_index(chats, id) == k,
    decreases k,
{
    if k > 0 {
        assert(chats[0].id != id);
        let rest = chats.drop_first();
        assert forall|i: int| 0 <= i < k - 1 implies (#[trigger] rest[i]).id != id by {
            assert(rest[i] == chats[i + 1]);
        }
        chat_index_is(rest, id, k - 1);
    }
}

/// What `chat_index` finds.
pub proof fn chat_index_found(chats: Seq<ChatView>, id: Seq<char>)
    ensures
        0 <= chat_index(chats, id) <= chats.len(),
        chat_index(chats, id) < chats.len() ==> chats[chat_index(chats, id)].id == id,
        chat_index(chats, id) < chats.len() <==> ids(chats).contains(id),
    decreases chats.len(),
{
    if chats.len() > 0 {
        if chats.first().id == id {
            assert(ids(chats)[0] == id);
        } else {
            let rest = chats.drop_first();
            chat_index_found(rest, id);
            if ids(rest).contains(id) {
                let k = ids(rest).index_of(id);
                assert(ids(chats)[k + 1] == id);
            }
            if ids(chats).contains(id) {
                let k = ids(chats).index_of(id);
                assert(k > 0);
                assert(ids(rest)[k - 1] == id);
            }
        }
    }
}

fn find(chats: &Vec<Chat>, id: &str) -> (at: usize)
    ensures
        at == chat_index(model::views(chats@), id@),
        at <= chats@.len(),
        at < chats@.len() <==> ids(model::views(chats@)).contains(id@),
{
    let ghost all = model::views(chats@);
    let mut at: usize = 0;
    while at < chats.len() && !text::same(chats[at].id.as_str(), id)
        invariant
            at <= chats@.len(),
            all == model::views(chats@),
            forall|i: int| 0 <= i < at ==> (#[trigger] all[i]).id != id@,
        decreases chats@.len() - at,
    {
        assert(all[at as int] == chats@[at as int]@);
        at = at + 1;
    }
    proof {
        if at < chats@.len() {
            assert(all[at as int] == chats@[at as int]@);
        }
        chat_index_is(all, id@, at as int);
        chat_index_found(all, id@);
    }
    at
}

/// Whether there is a chat with the id.
pub fn is_known(store: &ChatStore, id: &str) -> (answer: bool)
    ensures
        answer == ids(store@.chats).contains(id@),
{
    find(&store.chats, id) < store.chats.len()
}

// ---------------------------------------------------------------------------
// New chats
// ---------------------------------------------------------------------------

/// The id of a chat that is created at a time.
pub open spec fn plain_id(now: u64) -> Seq<char> {
    "chat-"@ + text::digits(now as nat)
}

/// The id of a further chat that is created at the time.
pub open spec fn further_id(now: u64, suffix: nat) -> Seq<char> {
    plain_id(now) + "-"@ + text::digits(suffix)
}

/// Whether an id is the one that a new chat gets: the plain one, or the first further one that is
/// free where the plain one is taken.
pub open spec fn gets_id(taken: Seq<Seq<char>>, now: u64, id: Seq<char>) -> bool {
    if !taken.contains(plain_id(now)) {
        id == plain_id(now)
    } else {
        exists|suffix: nat|
            2 <= suffix && id == #[trigger] further_id(now, suffix) && !taken.contains(id) && forall|k: nat|
                2 <= k < suffix ==> taken.contains(#[trigger] further_id(now, k))
    }
}

proof fn digits_differ(a: nat, b: nat)
    requires
        text::digits(a) == text::digits(b),
    ensures
        a == b,
    decreases a,
{
    let left = text::digits(a);
    let right = text::digits(b);
    assert(left.last() == text::digit((a % 10) as int)) by {
        if a < 10 {
            assert(a % 10 == a);
        }
    }
    assert(right.last() == text::digit((b % 10) as int)) by {
        if b < 10 {
            assert(b % 10 == b);
        }
    }
    assert(a % 10 == b % 10);
    some_digits(a / 10);
    some_digits(b / 10);
    if a >= 10 {
        assert(left.drop_last() =~= text::digits(a / 10));
        if b >= 10 {
            assert(right.drop_last() =~= text::digits(b / 10));
            digits_differ(a / 10, b / 10);
        }
    } else if b >= 10 {
        assert(right.drop_last() =~= text::digits(b / 10));
    }
}

proof fn some_digits(n: nat)
    ensures
        text::digits(n).len() >= 1,
{
}

/// Ids with different suffixes differ.
proof fn further_ids_differ(now: u64, a: nat, b: nat)
    requires
        further_id(now, a) == further_id(now, b),
    ensures
        a == b,
{
    let start = plain_id(now) + "-"@;
    assert(further_id(now, a).skip(start.len() as int) =~= text::digits(a));
    assert(further_id(now, b).skip(start.len() as int) =~= text::digits(b));
    digits_differ(a, b);
}

/// No more suffixes are taken than there are ids.
proof fn suffixes_run_out(taken: Seq<Seq<char>>, now: u64, suffix: nat)
    requires
        2 <= suffix,
        forall|k: nat| 2 <= k < suffix ==> taken.contains(#[trigger] further_id(now, k)),
    ensures
        suffix - 2 <= taken.len(),
{
    let tried = Seq::new((suffix - 2) as nat, |i: int| further_id(now, (i + 2) as nat));
    assert(tried.no_duplicates()) by {
        assert forall|i: int, j: int| 0 <= i < tried.len() && 0 <= j < tried.len() && i != j implies tried[i] != tried[j] by {
            if tried[i] == tried[j] {
                further_ids_differ(now, (i + 2) as nat, (j + 2) as nat);
            }
        }
    }
    assert forall|s: Seq<char>| tried.to_set().contains(s) implies #[trigger] taken.to_set().contains(s) by {
        let i = tried.index_of(s);
        assert(tried[i] == further_id(now, (i + 2) as nat));
    }
    tried.unique_seq_to_set();
    taken.lemma_cardinality_of_set();
    vstd::set_lib::lemma_len_subset(tried.to_set(), taken.to_set());
}

fn free_id(chats: &Vec<Chat>, now: u64) -> (id: String)
    ensures
        gets_id(ids(model::views(chats@)), now, id@),
{
    let ghost taken = ids(model::views(chats@));
    let plain = "chat-".to_string().concat(text::decimal(now).as_str());
    if find(chats, plain.as_str()) >= chats.len() {
        return plain;
    }
    let mut suffix: u128 = 2;
    loop
        invariant
            taken == ids(model::views(chats@)),
            taken.len() == chats@.len(),
            plain@ == plain_id(now),
            taken.contains(plain_id(now)),
            2 <= suffix <= chats@.len() + 2,
            chats@.len() == chats.len(),
            forall|k: nat| 2 <= k < suffix ==> taken.contains(#[trigger] further_id(now, k)),
        decreases chats@.len() + 3 - suffix,
    {
        let id = plain.clone().concat("-").concat(text::decimal_of(suffix).as_str());
        assert(id@ == further_id(now, suffix as nat));
        if find(chats, id.as_str()) >= chats.len() {
            return id;
        }
        proof {
            assert forall|k: nat| 2 <= k < suffix + 1 implies taken.contains(#[trigger] further_id(now, k)) by {}
            suffixes_run_out(taken, now, (suffix + 1) as nat);
        }
        suffix = suffix + 1;
    }
}

/// The chats with a new one.
pub open spec fn with_chat(store: ChatsView, id: Seq<char>, title: Seq<char>) -> ChatsView {
    ChatsView { chats: store.chats.push(ChatView { id, title, messages: Seq::empty() }), ..store }
}

/// Whether an id is that of a chat.
pub open spec fn known(store: ChatsView, id: Option<Seq<char>>) -> bool {
    id is Some && ids(store.chats).contains(id->0)
}

fn new_chat(store: &mut ChatStore, title: &str, now: u64) -> (id: String)
    ensures
        gets_id(ids(old(store)@.chats), now, id@),
        final(store)@ == with_chat(old(store)@, id@, title@),
{
    let id = free_id(&store.chats, now);
    let ghost before = store.chats@;
    let chat = Chat { id: id.clone(), title: title.to_string(), messages: Vec::new() };
    assert(chat@.messages =~= Seq::empty());
    store.chats.push(chat);
    assert(model::views(store.chats@) =~= model::views(before).push(chat@));
    id
}

/// Creates a chat and makes it the active one of the web interface.
pub fn new_web_chat(store: &mut ChatStore, now: u64) -> (id: String)
    ensures
        gets_id(ids(old(store)@.chats), now, id@),
        final(store)@ == (ChatsView { active_web: Some(id@), ..with_chat(old(store)@, id@, "New chat"@) }),
{
    let id = new_chat(store, "New chat", now);
    store.active_web_chat_id = Some(id.clone());
    id
}

/// Creates a chat and makes it the active one of private messages.
pub fn new_nostr_chat(store: &mut ChatStore, now: u64) -> (id: String)
    ensures
        gets_id(ids(old(store)@.chats), now, id@),
        final(store)@ == (ChatsView { active_nostr: Some(id@), ..with_chat(old(store)@, id@, "Nostr DM"@) }),
{
    let id = new_chat(store, "Nostr DM", now);
    store.active_nostr_chat_id = Some(id.clone());
    id
}

/// Whether a chat is the active one of the web interface: the one that was active, or a new one where
/// there was none.
pub open spec fn web_chat(before: ChatsView, now: u64, after: ChatsView, id: Seq<char>) -> bool {
    if known(before, before.active_web) {
        id == before.active_web->0 && after == before
    } else {
        &&& gets_id(ids(before.chats), now, id)
        &&& after == (ChatsView { active_web: Some(id), ..with_chat(before, id, "New chat"@) })
    }
}

/// Whether a chat is the active one of private messages: the one that was active, or a new one where
/// there was none.
pub open spec fn nostr_chat(before: ChatsView, now: u64, after: ChatsView, id: Seq<char>) -> bool {
    if known(before, before.active_nostr) {
        id == before.active_nostr->0 && after == before
    } else {
        &&& gets_id(ids(before.chats), now, id)
        &&& after == (ChatsView { active_nostr: Some(id), ..with_chat(before, id, "Nostr DM"@) })
    }
}

/// The active chat of the web interface. A new one is created where there is none.
pub fn ensure_web_chat(store: &mut ChatStore, now: u64) -> (id: String)
    ensures
        web_chat(old(store)@, now, final(store)@, id@),
{
    if let Some(id) = &store.active_web_chat_id {
        if find(&store.chats, id.as_str()) < store.chats.len() {
            return id.clone();
        }
    }
    new_web_chat(store, now)
}

/// The active chat of private messages. A new one is created where there is none.
pub fn ensure_nostr_chat(store: &mut ChatStore, now: u64) -> (id: String)
    ensures
        nostr_chat(old(store)@, now, final(store)@, id@),
{
    if let Some(id) = &store.active_nostr_chat_id {
        if find(&store.chats, id.as_str()) < store.chats.len() {
            return id.clone();
        }
    }
    new_nostr_chat(store, now)
}

/// Makes a chat the active one of the web interface.
pub fn set_active_web(store: &mut ChatStore, id: &str) -> (result: Result<(), ChatError>)
    ensures
        if ids(old(store)@.chats).contains(id@) {
            result is Ok && final(store)@ == (ChatsView { active_web: Some(id@), ..old(store)@ })
        } else {
            result is Err && *final(store) == *old(store)
        },
{
    if find(&store.chats, id) >= store.chats.len() {
        return Err(ChatError::NotFound);
    }
    store.active_web_chat_id = Some(id.to_string());
    Ok(())
}

// ---------------------------------------------------------------------------
// Messages
// ---------------------------------------------------------------------------

/// The chats after a message was added to one of them.
pub open spec fn with_message(store: ChatsView, id: Seq<char>, message: MessageView) -> ChatsView {
    let i = chat_index(store.chats, id);
    ChatsView {
        chats: store.chats.update(
            i,
            (ChatView { messages: store.chats[i].messages.push(message), ..store.chats[i] }),
        ),
        ..store
    }
}

/// Adds a message to a chat.
pub fn append(store: &mut ChatStore, id: &str, role: &str, content: &str, now: u64) -> (result: Result<(), ChatError>)
    ensures
        if ids(old(store)@.chats).contains(id@) {
            result is Ok && final(store)@ == with_message(
                old(store)@,
                id@,
                MessageView { role: role@, content: content@, created_at: now },
            )
        } else {
            result is Err && *final(store) == *old(store)
        },
{
    let at = find(&store.chats, id);
    if at >= store.chats.len() {
        return Err(ChatError::NotFound);
    }
    let ghost start = store@;
    let ghost before = store.chats@[at as int].messages@;
    let message = ChatMessage { role: role.to_string(), content: content.to_string(), created_at: now };
    store.chats[at].messages.push(message);
    assert(model::views(store.chats@[at as int].messages@) =~= model::views(before).push(message@));
    assert(store@.chats =~= with_message(start, id@, message@).chats);
    Ok(())
}

fn copy_messages(list: &Vec<ChatMessage>) -> (copy: Vec<ChatMessage>)
    ensures
        model::views(copy@) == model::views(list@),
{
    let mut copy: Vec<ChatMessage> = Vec::new();
    let mut at: usize = 0;
    while at < list.len()
        invariant
            at <= list@.len(),
            copy@.len() == at,
            forall|i: int| 0 <= i < at ==> (#[trigger] copy@[i])@ == list@[i]@,
        decreases list@.len() - at,
    {
        copy.push(list[at].clone());
        at = at + 1;
    }
    assert(model::views(copy@) =~= model::views(list@));
    copy
}

/// The messages of a chat, none where there is no such chat.
pub open spec fn messages_of(store: ChatsView, id: Seq<char>) -> Seq<MessageView> {
    let i = chat_index(store.chats, id);
    if i < store.chats.len() {
        store.chats[i].messages
    } else {
        Seq::empty()
    }
}

/// The messages of a chat, none where there is no such chat.
pub fn messages(store: &ChatStore, id: &str) -> (messages: Vec<ChatMessage>)
    ensures
        model::views(messages@) == messages_of(store@, id@),
{
    let at = find(&store.chats, id);
    if at < store.chats.len() {
        copy_messages(&store.chats[at].messages)
    } else {
        let none: Vec<ChatMessage> = Vec::new();
        assert(model::views(none@) =~= Seq::empty());
        none
    }
}

/// When a chat was last used: when its last message was written, else when it was created.
pub open spec fn last_used(chat: ChatView) -> u64 {
    if chat.messages.len() > 0 {
        chat.messages.last().created_at
    } else {
        match text::number_of(text::trim_start_of(chat.id, "chat-"@)) {
            Some(time) => time,
            None => 0,
        }
    }
}

/// What a list of chats shows of a chat.
pub open spec fn summary(chat: ChatView) -> SummaryView {
    SummaryView { id: chat.id, title: chat.title, updated_at: last_used(chat) }
}

fn summarize(chat: &Chat) -> (result: ChatSummary)
    ensures
        result@ == summary(chat@),
{
    assert(model::views(chat.messages@).len() == chat.messages@.len());
    proof {
        reveal_strlit("chat-");
    }
    let updated_at: u64 = if chat.messages.len() > 0 {
        assert(model::views(chat.messages@).last() == chat.messages@.last()@);
        chat.messages[chat.messages.len() - 1].created_at
    } else {
        match text::parse_number(text::trim_start_matches(chat.id.as_str(), "chat-").as_str()) {
            Some(time) => time,
            None => 0,
        }
    };
    ChatSummary { id: chat.id.clone(), title: chat.title.clone(), updated_at }
}

/// When the chats were last used.
pub open spec fn dates(store: ChatsView) -> Seq<u64> {
    Seq::new(store.chats.len(), |i: int| last_used(store.chats[i]))
}

/// What is shown of the chats, the last used first.
pub fn summaries(store: &ChatStore) -> (result: Vec<ChatSummary>)
    ensures
        exists|order: Seq<usize>| #[trigger]
            lists::newest_first(dates(store@), order) && model::views(result@) == Seq::new(
                order.len(),
                |i: int| summary(store@.chats[order[i] as int]),
            ),
{
    let mut times: Vec<u64> = Vec::new();
    let mut at: usize = 0;
    while at < store.chats.len()
        invariant
            at <= store.chats@.len(),
            times@.len() == at,
            forall|i: int| 0 <= i < at ==> #[trigger] times@[i] == dates(store@)[i],
        decreases store.chats@.len() - at,
    {
        assert(store@.chats[at as int] == store.chats@[at as int]@);
        times.push(summarize(&store.chats[at]).updated_at);
        at = at + 1;
    }
    assert(times@ =~= dates(store@));
    let order = lists::order_newest_first(&times);
    let mut result: Vec<ChatSummary> = Vec::new();
    at = 0;
    while at < order.len()
        invariant
            at <= order@.len(),
            lists::newest_first(dates(store@), order@),
            result@.len() == at,
            forall|i: int| 0 <= i < at ==> (#[trigger] result@[i])@ == summary(store@.chats[order@[i] as int]),
        decreases order@.len() - at,
    {
        assert(order@[at as int] < dates(store@).len());
        assert(store@.chats[order@[at as int] as int] == store.chats@[order@[at as int] as int]@);
        result.push(summarize(&store.chats[order[at]]));
        at = at + 1;
    }
    assert(model::views(result@) =~= Seq::new(order@.len(), |i: int| summary(store@.chats[order@[i] as int])));
    result
}

/// The last twelve messages, or all of them where there are fewer.
pub open spec fn recent(messages: Seq<MessageView>) -> Seq<MessageView> {
    if messages.len() <= 12 {
        messages
    } else {
        messages.skip(messages.len() - 12)
    }
}

/// How a message is shown to a model.
pub open spec fn message_line(message: MessageView) -> Seq<char> {
    message.role + ": "@ + message.content
}

/// What a model is shown of a chat.
pub open spec fn prompt_of(messages: Seq<MessageView>) -> Seq<char> {
    if messages.len() == 0 {
        "No previous messages."@
    } else {
        text::joined(Seq::new(recent(messages).len(), |i: int| message_line(recent(messages)[i])), "\n"@)
    }
}

/// What a model is shown of a chat: its last messages.
pub fn conversation_prompt(store: &ChatStore, id: &str) -> (prompt: String)
    ensures
        prompt@ == prompt_of(messages_of(store@, id@)),
{
    let place = find(&store.chats, id);
    if place >= store.chats.len() || store.chats[place].messages.len() == 0 {
        return "No previous messages.".to_string();
    }
    let messages = &store.chats[place].messages;
    let ghost all = model::views(messages@);
    assert(store@.chats[place as int] == store.chats@[place as int]@);
    assert(all == messages_of(store@, id@));
    let from: usize = if messages.len() <= 12 {
        0
    } else {
        messages.len() - 12
    };
    assert(recent(all) =~= all.skip(from as int));
    let mut lines: Vec<String> = Vec::new();
    let mut at: usize = from;
    while at < messages.len()
        invariant
            from <= at <= messages@.len(),
            all == model::views(messages@),
            recent(all) == all.skip(from as int),
            lines@.len() == at - from,
            forall|i: int| 0 <= i < at - from ==> (#[trigger] lines@[i])@ == message_line(recent(all)[i]),
        decreases messages@.len() - at,
    {
        assert(all[at as int] == messages@[at as int]@);
        lines.push(messages[at].role.clone().concat(": ").concat(messages[at].content.as_str()));
        at = at + 1;
    }
    assert(text::texts(lines@) =~= Seq::new(recent(all).len(), |i: int| message_line(recent(all)[i])));
    text::join(&lines, "\n")
}

// ---------------------------------------------------------------------------
// Titles
// ---------------------------------------------------------------------------

/// The title that a message gives a chat: the message on one line, cut after 48 characters.
pub open spec fn title_of(message: Seq<char>) -> Seq<char> {
    let whole = text::joined(text::words_of(message), " "@);
    if whole.len() > 48 {
        whole.take(48) + "..."@
    } else {
        whole
    }
}

/// The title of a chat after a message of the user: a given title stays.
pub open spec fn retitled(title: Seq<char>, message: Seq<char>) -> Seq<char> {
    if title != "New chat"@ && title != "Nostr DM"@ {
        title
    } else if text::joined(text::words_of(message), " "@).len() == 0 {
        title
    } else {
        title_of(message)
    }
}

/// The chats after a message of the user was taken for the title of one of them.
pub open spec fn with_title(store: ChatsView, id: Seq<char>, message: Seq<char>) -> ChatsView {
    let i = chat_index(store.chats, id);
    if i < store.chats.len() {
        ChatsView {
            chats: store.chats.update(
                i,
                (ChatView { title: retitled(store.chats[i].title, message), ..store.chats[i] }),
            ),
            ..store
        }
    } else {
        store
    }
}

/// Takes a message of the user for the title of a chat that has none of its own.
pub fn update_title_from_user(store: &mut ChatStore, id: &str, user_message: &str)
    ensures
        final(store)@ == with_title(old(store)@, id@, user_message@),
{
    let at = find(&store.chats, id);
    if at >= store.chats.len() {
        return;
    }
    let ghost start = store@;
    let named = !text::same(store.chats[at].title.as_str(), "New chat") && !text::same(
        store.chats[at].title.as_str(),
        "Nostr DM",
    );
    let whole = text::join(&text::words(user_message), " ");
    if !named && !whole.as_str().is_empty() {
        let chars = text::chars_of(whole.as_str());
        let title = if chars.len() > 48 {
            text::take_chars(whole.as_str(), 48).concat("...")
        } else {
            whole
        };
        store.chats[at].title = title;
    }
    assert(store@.chats =~= with_title(start, id@, user_message@).chats);
}

// ---------------------------------------------------------------------------
// What always holds
// ---------------------------------------------------------------------------

/// Whether no two chats have the same id.
pub open spec fn distinct(chats: Seq<ChatView>) -> bool {
    ids(chats).no_duplicates()
}

/// A new chat gets an id that no other chat has, so ids stay distinct; and it is the one that is
/// found by its id.
pub proof fn new_chats_have_ids_of_their_own(store: ChatsView, now: u64, id: Seq<char>, title: Seq<char>)
    requires
        gets_id(ids(store.chats), now, id),
    ensures
        !ids(store.chats).contains(id),
        distinct(store.chats) ==> distinct(with_chat(store, id, title).chats),
        chat_index(with_chat(store, id, title).chats, id) == store.chats.len(),
        ids(with_chat(store, id, title).chats).contains(id),
{
    let after = with_chat(store, id, title).chats;
    assert(ids(after) =~= ids(store.chats).push(id));
    assert forall|i: int| 0 <= i < store.chats.len() implies (#[trigger] after[i]).id != id by {
        assert(ids(store.chats)[i] == after[i].id);
    }
    chat_index_is(after, id, store.chats.len() as int);
    chat_index_found(after, id);
}

/// What was written to a chat is what is read from it, and the other chats stay as they were.
pub proof fn messages_are_read_back(store: ChatsView, id: Seq<char>, other: Seq<char>, message: MessageView)
    requires
        ids(store.chats).contains(id),
    ensures
        messages_of(with_message(store, id, message), id) == messages_of(store, id).push(message),
        other != id ==> messages_of(with_message(store, id, message), other) == messages_of(store, other),
{
    let i = chat_index(store.chats, id);
    chat_index_found(store.chats, id);
    let after = with_message(store, id, message).chats;
    same_ids_same_index(store.chats, after, id);
    same_ids_same_index(store.chats, after, other);
    chat_index_found(store.chats, other);
}

/// Chats with the same ids have each id at the same place.
pub proof fn same_ids_same_index(left: Seq<ChatView>, right: Seq<ChatView>, id: Seq<char>)
    requires
        left.len() == right.len(),
        forall|i: int| 0 <= i < left.len() ==> (#[trigger] left[i]).id == right[i].id,
    ensures
        chat_index(left, id) == chat_index(right, id),
    decreases left.len(),
{
    if left.len() > 0 {
        assert(left[0].id == right[0].id);
        let less = left.drop_first();
        let fewer = right.drop_first();
        assert forall|i: int| 0 <= i < less.len() implies (#[trigger] less[i]).id == fewer[i].id by {
            assert(less[i] == left[i + 1]);
        }
        same_ids_same_index(less, fewer, id);
    }
}

/// What a model is told of a chat are its last twelve messages, each with who said it, and no earlier one
/// where there are more.
pub proof fn models_are_told_the_last_messages(messages: Seq<MessageView>, i: int)
    requires
        0 <= i < messages.len(),
    ensures
        messages.len() - 12 <= i ==> text::holds(prompt_of(messages), messages[i].role + ": "@ + messages[i].content),
        messages.len() > 12 ==> prompt_of(messages) == prompt_of(messages.skip(messages.len() - 12)),
{
    let last = recent(messages);
    let lines = Seq::new(last.len(), |k: int| message_line(last[k]));
    if messages.len() - 12 <= i {
        let k = if messages.len() <= 12 {
            i
        } else {
            i - (messages.len() - 12)
        };
        assert(last[k] == messages[i]);
        text::joined_texts_are_held(lines, "\n"@, k);
        assert(lines[k] == message_line(messages[i]));
    }
    if messages.len() > 12 {
        let tail = messages.skip(messages.len() - 12);
        assert(recent(tail) =~= last);
    }
}

/// The title of a chat is its first message on one line, cut after 48 characters; a title that was given
/// before stays.
pub proof fn titles_quote_the_first_message(title: Seq<char>, message: Seq<char>)
    ensures
        ({
            let whole = text::joined(text::words_of(message), " "@);
            &&& title != "New chat"@ && title != "Nostr DM"@ ==> retitled(title, message) == title
            &&& title == "New chat"@ || title == "Nostr DM"@ ==> {
                &&& 0 < whole.len() <= 48 ==> retitled(title, message) == whole
                &&& whole.len() > 48 ==> retitled(title, message) == whole.take(48) + "..."@
                &&& whole.len() == 0 ==> retitled(title, message) == title
            }
        }),
{
}

/// A chat was last used when its last message was written.
pub proof fn chats_were_used_when_last_written_to(chat: ChatView, message: MessageView)
    ensures
        last_used(ChatView { messages: chat.messages.push(message), ..chat }) == message.created_at,
{
}

} // verus!
