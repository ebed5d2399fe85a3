//! Providers of models: what they are asked and what is made of their answers.

use vstd::prelude::*;
use vstd::utf8::*;

use crate::json;
use crate::json::Json;
use crate::lists;
use crate::model;
use crate::text;
use crate::worker;

verus! {

/// A tool that a model wants to be run. Its input is a JSON document.
#[derive(Debug)]
pub struct ToolCall {
    pub name: String,
    pub input: String,
}

/// The answer of a model.
#[derive(Debug)]
pub struct AgentResponse {
    pub summary: String,
    pub diff: String,
    pub tool_calls: Vec<ToolCall>,
}

/// The answer of a model: the one that its text is the JSON form of, where it is one, else the text
/// itself.
pub fn normalize_text(answer: &str, parsed: Option<AgentResponse>) -> (response: AgentResponse)
    ensures
        match parsed {
            Some(found) => response == found,
            None => response.summary@ == text::trimmed(answer@) && response.diff@ == Seq::<char>::empty()
                && response.tool_calls@.len() == 0,
        },
{
    match parsed {
        Some(found) => found,
        None => AgentResponse { summary: text::trim(answer), diff: String::new(), tool_calls: Vec::new() },
    }
}

/// What a model is told before it is asked.
pub open spec fn rules_text() -> Seq<char> {
    "You are Bender, a local coding agent.\n\nRules:\n- Answer normal questions directly.\n- If a file change or tool action is needed, return a JSON object with keys \"summary\", \"diff\", and \"tool_calls\".\n- In that JSON, \"diff\" must be a valid unified diff suitable for `git apply`.\n- In that JSON, \"tool_calls\" must be an array of objects with keys \"name\" and \"input\".\n- Patch only files in the supplied project context.\n- Do not include shell commands.\n- Do not modify .bender, .git, target, node_modules, or secrets.\n- Use tools only when the user explicitly asks for the capability or the tool is necessary to complete the request.\n- Use only the tools listed below. Do not invent shell commands or unavailable tools.\n- If no file change or tool call is needed, answer in plain text or return JSON with an empty diff and empty tool_calls.\n- Do not talk about patches unless the user asks about implementation details.\n\n"@
}

/// What a model is asked.
pub fn build_prompt(instruction: &str, context: &str, tools_prompt: &str) -> (prompt: String)
    ensures
        prompt@ == rules_text() + tools_prompt@ + "\n\nUser request:\n"@ + instruction@ + "\n\n"@ + context@ + "\n"@,
        text::holds(prompt@, tools_prompt@),
        text::holds(prompt@, "\n\nUser request:\n"@ + instruction@),
        text::holds(prompt@, context@),
{
    proof {
        requests_are_held(rules_text(), tools_prompt@, instruction@, context@);
    }
    "You are Bender, a local coding agent.\n\nRules:\n- Answer normal questions directly.\n- If a file change or tool action is needed, return a JSON object with keys \"summary\", \"diff\", and \"tool_calls\".\n- In that JSON, \"diff\" must be a valid unified diff suitable for `git apply`.\n- In that JSON, \"tool_calls\" must be an array of objects with keys \"name\" and \"input\".\n- Patch only files in the supplied project context.\n- Do not include shell commands.\n- Do not modify .bender, .git, target, node_modules, or secrets.\n- Use tools only when the user explicitly asks for the capability or the tool is necessary to complete the request.\n- Use only the tools listed below. Do not invent shell commands or unavailable tools.\n- If no file change or tool call is needed, answer in plain text or return JSON with an empty diff and empty tool_calls.\n- Do not talk about patches unless the user asks about implementation details.\n\n".to_string().concat(
        tools_prompt,
    ).concat("\n\nUser request:\n").concat(instruction).concat("\n\n").concat(context).concat("\n")
}

// ---------------------------------------------------------------------------
// Addresses, keys and errors
// ---------------------------------------------------------------------------

/// An address without white space around it and without slashes at its end.
pub open spec fn base_of(url: Seq<char>) -> Seq<char> {
    text::trim_end_of(text::trimmed(url), "/"@)
}

/// The address without white space around it and without slashes at its end.
pub fn trim_base_url(base_url: &str) -> (url: String)
    ensures
        url@ == base_of(base_url@),
{
    text::trim_end_matches(text::trim(base_url).as_str(), "/")
}

/// An address of a service below its base.
pub fn endpoint(base_url: &str, path: &str) -> (url: String)
    ensures
        url@ == base_of(base_url@) + path@,
{
    trim_base_url(base_url).concat(path)
}

/// The key to send with a request, where there is one that is not blank.
pub fn usable_key(key: Option<&str>) -> (result: Option<&str>)
    ensures
        result == match key {
            Some(value) => if text::blank(value@) {
                None
            } else {
                Some(value)
            },
            None => None,
        },
{
    match key {
        Some(value) => if text::is_blank(value) {
            None
        } else {
            Some(value)
        },
        None => None,
    }
}

/// How a refused request is reported.
pub fn provider_error(action: &str, status: &str, body: &str) -> (message: String)
    ensures
        message@ == "provider error while "@ + action@ + ": HTTP "@ + status@ + ": "@ + body@,
{
    "provider error while ".to_string().concat(action).concat(": HTTP ").concat(status).concat(": ").concat(body)
}

/// The data of an image, behind the comma of its address.
pub fn image_data(data_url: &str) -> (data: Option<String>)
    ensures
        model::view_of(data) == match text::split_at_first(data_url@, ',') {
            Some(parts) => Some(parts.1),
            None => None,
        },
{
    match text::split_once(data_url, ',') {
        Some(parts) => Some(parts.1),
        None => None,
    }
}

/// How many bytes of a reply are shown.
pub const MAX_PREVIEW: usize = 1600;

/// Whether the first bytes of a text, as many as are shown, are whole characters.
pub open spec fn can_be_cut(shown: Seq<char>) -> bool {
    encode_utf8(shown).len() > MAX_PREVIEW ==> exists|k: int|
        0 <= k <= shown.len() && #[trigger] encode_utf8(shown.take(k)).len() == MAX_PREVIEW
}

/// How many characters of a text fill the bytes that are shown.
pub open spec fn cut_of(whole: Seq<char>) -> int {
    choose|k: int| 0 <= k <= whole.len() && #[trigger] encode_utf8(whole.take(k)).len() == MAX_PREVIEW
}

/// What is shown of a text: all of it, or its first bytes with three dots.
pub open spec fn preview_of(whole: Seq<char>) -> Seq<char> {
    if encode_utf8(whole).len() <= MAX_PREVIEW {
        whole
    } else {
        whole.take(cut_of(whole)) + "..."@
    }
}

proof fn longer_starts_have_more_bytes(s: Seq<char>, k: int, j: int)
    requires
        0 <= k < j <= s.len(),
    ensures
        encode_utf8(s.take(k)).len() < encode_utf8(s.take(j)).len(),
    decreases k,
{
    let rest = s.drop_first();
    assert(s.take(j).drop_first() =~= rest.take(j - 1));
    if k > 0 {
        assert(s.take(k).drop_first() =~= rest.take(k - 1));
        assert(s.take(k)[0] == s.take(j)[0]);
        longer_starts_have_more_bytes(rest, k - 1, j - 1);
    }
}

proof fn cuts_are_unique(whole: Seq<char>, k: int)
    requires
        0 <= k <= whole.len(),
        encode_utf8(whole.take(k)).len() == MAX_PREVIEW,
    ensures
        cut_of(whole) == k,
{
    let cut = cut_of(whole);
    if cut < k {
        longer_starts_have_more_bytes(whole, cut, k);
    }
    if k < cut {
        longer_starts_have_more_bytes(whole, k, cut);
    }
}

/// What is shown of the text, where its first bytes are whole characters.
fn cut_text(rendered: &str) -> (preview: Option<String>)
    ensures
        preview is Some <==> can_be_cut(rendered@),
        preview is Some ==> preview->0@ == preview_of(rendered@),
{
    if rendered.as_bytes().len() <= MAX_PREVIEW {
        return Some(rendered.to_string());
    }
    let chars = text::chars_of(rendered);
    let mut at: usize = 0;
    while at < chars.len()
        invariant
            at <= chars@.len(),
            chars@ == rendered@,
            encode_utf8(rendered@).len() > MAX_PREVIEW,
            forall|k: int| 0 <= k < at ==> #[trigger] encode_utf8(rendered@.take(k)).len() != MAX_PREVIEW,
        decreases chars@.len() - at,
    {
        assert(chars@.subrange(0, at as int) =~= chars@.take(at as int));
        let start = text::text_of(&chars, 0, at);
        if start.as_str().as_bytes().len() == MAX_PREVIEW {
            proof {
                assert(encode_utf8(rendered@.take(at as int)).len() == MAX_PREVIEW);
                cuts_are_unique(rendered@, at as int);
            }
            return Some(start.concat("..."));
        }
        at = at + 1;
    }
    assert(rendered@.take(at as int) =~= rendered@);
    None
}

/// What is shown of a reply, from the form in which it is written.
pub fn response_preview(rendered: &str) -> (preview: String)
    requires
        can_be_cut(rendered@),
    ensures
        preview@ == preview_of(rendered@),
{
    cut_text(rendered).unwrap()
}

// ---------------------------------------------------------------------------
// Answers
// ---------------------------------------------------------------------------

/// The text that a member of a list of choices holds: that of its first item.
pub open spec fn choice_content(reply: Json) -> Option<Seq<char>> {
    let choices = reply.member_items("choices"@);
    if choices.len() == 0 {
        None
    } else {
        worker::reply_content(choices[0])
    }
}

/// The text that a reply with choices holds: that of the first one.
pub fn first_choice(reply: &Json) -> (content: Option<String>)
    ensures
        model::view_of(content) == choice_content(*reply),
{
    match reply.get_items("choices") {
        Some(choices) => if choices.len() > 0 {
            worker::chat_content(&choices[0])
        } else {
            None
        },
        None => None,
    }
}

/// A text, where it is not blank.
pub open spec fn unless_blank(s: Seq<char>) -> Option<Seq<char>> {
    if text::blank(s) {
        None
    } else {
        Some(s)
    }
}

fn some_unless_blank(s: String) -> (result: Option<String>)
    ensures
        model::view_of(result) == unless_blank(s@),
{
    if text::is_blank(s.as_str()) {
        None
    } else {
        Some(s)
    }
}

/// The text of an item of a reply, none where it is of another type.
pub open spec fn item_text(item: Json) -> Seq<char> {
    if item.member_string("type"@) == Some("text"@) && item.member_string("text"@) is Some {
        item.member_string("text"@)->0
    } else {
        Seq::empty()
    }
}

/// The texts of items of a reply.
pub open spec fn items_text(items: Seq<Json>) -> Seq<char>
    decreases items.len(),
{
    if items.len() == 0 {
        Seq::empty()
    } else {
        items_text(items.drop_last()) + item_text(items.last())
    }
}

/// The text of a reply with content items.
pub fn extract_text(reply: &Json) -> (content: Option<String>)
    ensures
        model::view_of(content) == match reply.member("content"@) {
            Some(Json::List(items)) => unless_blank(items_text(items@)),
            _ => None,
        },
{
    let items = match reply.get_items("content") {
        Some(items) => items,
        None => {
            return None;
        },
    };
    let mut out = String::new();
    let mut at: usize = 0;
    assert(items@.take(0) =~= Seq::<Json>::empty());
    while at < items.len()
        invariant
            at <= items@.len(),
            out@ == items_text(items@.take(at as int)),
        decreases items@.len() - at,
    {
        proof {
            let next = items@.take(at + 1);
            assert(next.drop_last() =~= items@.take(at as int));
            assert(next.last() == items@[at as int]);
            assert(out@ + Seq::<char>::empty() =~= out@);
        }
        let plain = match items[at].get_str("type") {
            Some(kind) => text::same(kind, "text"),
            None => false,
        };
        if plain {
            if let Some(content) = items[at].get_str("text") {
                out.append(content);
            }
        }
        at = at + 1;
    }
    assert(items@.take(at as int) =~= items@);
    some_unless_blank(out)
}

/// Whether a value is one of the kinds that hold text.
pub open spec fn holds_text(value: Json) -> bool {
    let kind = value.member_string("type"@);
    kind == Some("output_text"@) || kind == Some("text"@) || kind == Some("summary_text"@) || kind == Some("message"@)
}

/// The text that a value holds itself.
pub open spec fn own_text(value: Json) -> Seq<char> {
    if !holds_text(value) {
        Seq::empty()
    } else {
        match value.member_string("text"@) {
            Some(content) => content,
            None => match value.member_string("content"@) {
                Some(content) => content,
                None => Seq::empty(),
            },
        }
    }
}

/// How many items a value has.
pub open spec fn size_of(value: Json) -> nat {
    match value {
        Json::List(items) => items@.len(),
        _ => 0,
    }
}

/// The text in a value: for a list that of its first `n` items, for an object its own, then that
/// in its content, its output and its items.
pub open spec fn text_in(value: Json, n: nat) -> Seq<char>
    decreases value, n,
{
    match value {
        Json::List(items) => if n == 0 || n > items@.len() {
            Seq::empty()
        } else {
            text_in(value, (n - 1) as nat) + text_in(items@[n - 1], size_of(items@[n - 1]))
        },
        Json::Object(_) => {
            let content = match value.member("content"@) {
                Some(inner) => {
                    proof {
                        json::members_are_below(value, "content"@);
                    }
                    text_in(inner, size_of(inner))
                },
                None => Seq::empty(),
            };
            let output = match value.member("output"@) {
                Some(inner) => {
                    proof {
                        json::members_are_below(value, "output"@);
                    }
                    text_in(inner, size_of(inner))
                },
                None => Seq::empty(),
            };
            let items = match value.member("items"@) {
                Some(inner) => {
                    proof {
                        json::members_are_below(value, "items"@);
                    }
                    text_in(inner, size_of(inner))
                },
                None => Seq::empty(),
            };
            own_text(value) + content + output + items
        },
        _ => Seq::empty(),
    }
}

fn push_own_text(value: &Json, out: &mut String)
    ensures
        final(out)@ == old(out)@ + own_text(*value),
{
    assert(out@ + Seq::<char>::empty() =~= out@);
    let fits = match value.get_str("type") {
        Some(kind) => text::same(kind, "output_text") || text::same(kind, "text") || text::same(kind, "summary_text")
            || text::same(kind, "message"),
        None => false,
    };
    if fits {
        if let Some(content) = value.get_str("text") {
            out.append(content);
        } else if let Some(content) = value.get_str("content") {
            out.append(content);
        }
    }
}

/// Adds the text in a value.
pub fn collect_text(value: &Json, out: &mut String)
    ensures
        final(out)@ == old(out)@ + text_in(*value, size_of(*value)),
    decreases *value,
{
    let ghost start = out@;
    assert(start + Seq::<char>::empty() =~= start);
    match value {
        Json::List(items) => {
            let mut at: usize = 0;
            while at < items.len()
                invariant
                    at <= items@.len(),
                    *value == Json::List(*items),
                    out@ == start + text_in(*value, at as nat),
                decreases items@.len() - at,
            {
                proof {
                    assert(decreases_to!(*value => *items));
                    assert(decreases_to!(*items => items@));
                    assert(decreases_to!(items@ => items@[at as int]));
                }
                collect_text(&items[at], out);
                assert(out@ =~= start + text_in(*value, (at + 1) as nat));
                at = at + 1;
            }
        },
        Json::Object(_) => {
            push_own_text(value, out);
            let ghost first = out@;
            assert(first + Seq::<char>::empty() =~= first);
            if let Some(inner) = value.get("content") {
                collect_text(inner, out);
            }
            let ghost second = out@;
            assert(second + Seq::<char>::empty() =~= second);
            if let Some(inner) = value.get("output") {
                collect_text(inner, out);
            }
            let ghost third = out@;
            assert(third + Seq::<char>::empty() =~= third);
            if let Some(inner) = value.get("items") {
                collect_text(inner, out);
            }
            assert(out@ =~= start + text_in(*value, size_of(*value)));
        },
        _ => {},
    }
}

/// The text of a reply: the one that it gives, else the one in its output.
pub open spec fn output_text(reply: Json) -> Option<Seq<char>> {
    match reply.member_string("output_text"@) {
        Some(content) => Some(content),
        None => match reply.member("output"@) {
            Some(output) => unless_blank(text_in(output, size_of(output))),
            None => None,
        },
    }
}

/// The text of a reply: the one that it gives, else the one in its output.
pub fn extract_output_text(reply: &Json) -> (content: Option<String>)
    ensures
        model::view_of(content) == output_text(*reply),
{
    if let Some(content) = reply.get_str("output_text") {
        return Some(content.to_string());
    }
    match reply.get("output") {
        Some(output) => {
            let mut out = String::new();
            collect_text(output, &mut out);
            assert(out@ =~= text_in(*output, size_of(*output)));
            some_unless_blank(out)
        },
        None => None,
    }
}

/// A member of a reply that is not null.
pub open spec fn present(reply: Json, key: Seq<char>) -> bool {
    reply.member(key) is Some && !(reply.member(key)->0 is Null)
}

/// The message with which the body of a reply is refused that is no JSON or not completed. It shows
/// members of the reply as they are printed.
pub open spec fn completion_fault(body: Seq<char>) -> Option<Seq<char>> {
    match json::json_document(body) {
        None => Some("invalid OpenAI JSON"@),
        Some(reply) => if present(reply, "error"@) {
            Some("OpenAI response error: "@ + json::written_member(body, "error"@)->0)
        } else {
            match reply.member_string("status"@) {
                Some(status) => if status == "completed"@ {
                    None
                } else {
                    Some(
                        "OpenAI response status was "@ + status + ": "@ + if present(reply, "incomplete_details"@) {
                            json::written_member(body, "incomplete_details"@)->0
                        } else {
                            "no details"@
                        },
                    )
                },
                None => None,
            }
        },
    }
}

fn is_present(reply: &Json, key: &str) -> (answer: bool)
    ensures
        answer == present(*reply, key@),
{
    match reply.get(key) {
        Some(Json::Null) => false,
        Some(_) => true,
        None => false,
    }
}

/// Accepts the body of a reply that is completed.
pub fn ensure_completed_response(body: &str) -> (result: Result<(), String>)
    ensures
        match completion_fault(body@) {
            None => result is Ok,
            Some(message) => result is Err && result->Err_0@ == message,
        },
{
    let reply = match json::parse(body) {
        Some(reply) => reply,
        None => {
            return Err("invalid OpenAI JSON".to_string());
        },
    };
    if is_present(&reply, "error") {
        let error = json::written_at(body, "error").unwrap();
        return Err("OpenAI response error: ".to_string().concat(error.as_str()));
    }
    if let Some(status) = reply.get_str("status") {
        if !text::same(status, "completed") {
            let shown = if is_present(&reply, "incomplete_details") {
                json::written_at(body, "incomplete_details").unwrap()
            } else {
                "no details".to_string()
            };
            return Err(
                "OpenAI response status was ".to_string().concat(status).concat(": ").concat(shown.as_str()),
            );
        }
    }
    Ok(())
}

/// The text that a reply of the OpenAI service holds, from its body, or the message of what is wrong
/// with it.
pub open spec fn openai_answer(body: Seq<char>) -> Result<Seq<char>, Seq<char>> {
    match completion_fault(body) {
        Some(message) => Err(message),
        None => match output_text(json::json_document(body)->0) {
            Some(content) => Ok(content),
            None => Err(
                "OpenAI response did not contain output text. Response preview: "@ + preview_of(
                    json::written_document(body)->0,
                ),
            ),
        },
    }
}

/// Whether the answer to the body of a reply of the OpenAI service shows a preview of it.
pub open spec fn openai_shows_preview(body: Seq<char>) -> bool {
    completion_fault(body) is None && output_text(json::json_document(body)->0) is None
}

/// The text that a reply of the OpenAI service holds, from its body.
pub fn read_openai_answer(body: &str) -> (result: Result<String, String>)
    requires
        openai_shows_preview(body@) ==> can_be_cut(json::written_document(body@)->0),
    ensures
        match openai_answer(body@) {
            Ok(content) => result is Ok && result->Ok_0@ == content,
            Err(message) => result is Err && result->Err_0@ == message,
        },
{
    if let Err(message) = ensure_completed_response(body) {
        return Err(message);
    }
    let reply = json::parse(body).unwrap();
    match extract_output_text(&reply) {
        Some(content) => Ok(content),
        None => {
            let preview = response_preview(json::written(body).unwrap().as_str());
            Err(
                "OpenAI response did not contain output text. Response preview: ".to_string().concat(preview.as_str()),
            )
        },
    }
}

/// The text that a reply of the OpenAI service holds, from its body; nothing where a preview of it
/// would have to cut a character.
pub fn try_read_openai_answer(body: &str) -> (result: Option<Result<String, String>>)
    ensures
        result is None <==> openai_shows_preview(body@) && !can_be_cut(json::written_document(body@)->0),
        result is Some ==> match openai_answer(body@) {
            Ok(content) => result->0 is Ok && result->0->Ok_0@ == content,
            Err(message) => result->0 is Err && result->0->Err_0@ == message,
        },
{
    if ensure_completed_response(body).is_ok() {
        let reply = json::parse(body).unwrap();
        if extract_output_text(&reply).is_none() && cut_text(json::written(body).unwrap().as_str()).is_none() {
            return None;
        }
    }
    Some(read_openai_answer(body))
}

/// A service that answers in one reply, other than that of OpenAI.
#[derive(Debug, Clone, Copy, PartialEq, Eq, Structural)]
pub enum Service {
    Chat,
    Ollama,
    Anthropic,
}

impl Service {
    /// What is said of a reply of the service that is no JSON.
    pub open spec fn invalid(self) -> Seq<char> {
        match self {
            Service::Chat => "invalid chat JSON"@,
            Service::Ollama => "invalid Ollama JSON"@,
            Service::Anthropic => "invalid Anthropic JSON"@,
        }
    }

    /// What is said of a reply of the service that holds no text.
    pub open spec fn empty(self) -> Seq<char> {
        match self {
            Service::Chat => "chat response did not contain message content. Response preview: "@,
            Service::Ollama => "Ollama response did not contain message content. Response preview: "@,
            Service::Anthropic => "Anthropic response did not contain text. Response preview: "@,
        }
    }

    /// The text that a reply of the service holds.
    pub open spec fn text_of(self, reply: Json) -> Option<Seq<char>> {
        match self {
            Service::Chat => choice_content(reply),
            Service::Ollama => worker::reply_content(reply),
            Service::Anthropic => match reply.member("content"@) {
                Some(Json::List(items)) => unless_blank(items_text(items@)),
                _ => None,
            },
        }
    }

    /// The text that a reply of the service holds, from its body, or the message of what is wrong with
    /// it.
    pub open spec fn answer(self, body: Seq<char>) -> Result<Seq<char>, Seq<char>> {
        match json::json_document(body) {
            None => Err(self.invalid()),
            Some(reply) => match self.text_of(reply) {
                Some(content) => Ok(content),
                None => Err(self.empty() + preview_of(json::written_document(body)->0)),
            },
        }
    }

    /// Whether the answer to the body of a reply shows a preview of it.
    pub open spec fn shows_preview(self, body: Seq<char>) -> bool {
        json::json_document(body) is Some && self.text_of(json::json_document(body)->0) is None
    }

    fn content_of(self, reply: &Json) -> (content: Option<String>)
        ensures
            model::view_of(content) == self.text_of(*reply),
    {
        match self {
            Service::Chat => first_choice(reply),
            Service::Ollama => worker::chat_content(reply),
            Service::Anthropic => extract_text(reply),
        }
    }

    /// The text that a reply of the service holds, from its body.
    pub fn read_answer(self, body: &str) -> (result: Result<String, String>)
        requires
            self.shows_preview(body@) ==> can_be_cut(json::written_document(body@)->0),
        ensures
            match self.answer(body@) {
                Ok(content) => result is Ok && result->Ok_0@ == content,
                Err(message) => result is Err && result->Err_0@ == message,
            },
    {
        let reply = match json::parse(body) {
            Some(reply) => reply,
            None => {
                return Err(
                    match self {
                        Service::Chat => "invalid chat JSON".to_string(),
                        Service::Ollama => "invalid Ollama JSON".to_string(),
                        Service::Anthropic => "invalid Anthropic JSON".to_string(),
                    },
                );
            },
        };
        let empty = match self {
            Service::Chat => "chat response did not contain message content. Response preview: ",
            Service::Ollama => "Ollama response did not contain message content. Response preview: ",
            Service::Anthropic => "Anthropic response did not contain text. Response preview: ",
        };
        match self.content_of(&reply) {
            Some(content) => Ok(content),
            None => {
                let preview = response_preview(json::written(body).unwrap().as_str());
                Err(empty.to_string().concat(preview.as_str()))
            },
        }
    }

    /// The text that a reply of the service holds, from its body; nothing where a preview of it would
    /// have to cut a character.
    pub fn try_read_answer(self, body: &str) -> (result: Option<Result<String, String>>)
        ensures
            result is None <==> self.shows_preview(body@) && !can_be_cut(json::written_document(body@)->0),
            result is Some ==> match self.answer(body@) {
                Ok(content) => result->0 is Ok && result->0->Ok_0@ == content,
                Err(message) => result->0 is Err && result->0->Err_0@ == message,
            },
    {
        if let Some(reply) = json::parse(body) {
            if self.content_of(&reply).is_none() && cut_text(json::written(body).unwrap().as_str()).is_none() {
                return None;
            }
        }
        Some(self.read_answer(body))
    }
}

// ---------------------------------------------------------------------------
// Lists of models
// ---------------------------------------------------------------------------

/// Whether a model of the OpenAI service is one that can code.
pub open spec fn candidate(id: Seq<char>) -> bool {
    &&& "gpt-"@.is_prefix_of(id) || "codex-"@.is_prefix_of(id)
    &&& !text::holds(id, "audio"@)
    &&& !text::holds(id, "image"@)
    &&& !text::holds(id, "realtime"@)
    &&& !text::holds(id, "search"@)
    &&& !text::holds(id, "transcribe"@)
    &&& !text::holds(id, "tts"@)
    &&& !text::holds(id, "moderation"@)
    &&& !text::holds(id, "embedding"@)
}

/// Whether the model of the OpenAI service is one that can code.
pub fn is_bender_model_candidate(id: &str) -> (answer: bool)
    ensures
        answer == candidate(id@),
{
    (text::starts_with(id, "gpt-") || text::starts_with(id, "codex-")) && !text::contains(id, "audio")
        && !text::contains(id, "image") && !text::contains(id, "realtime") && !text::contains(id, "search")
        && !text::contains(id, "transcribe") && !text::contains(id, "tts") && !text::contains(id, "moderation")
        && !text::contains(id, "embedding")
}

/// How early a model is offered: the lower, the earlier.
pub open spec fn rank(id: Seq<char>) -> u8 {
    if text::holds(id, "codex"@) && !text::holds(id, "mini"@) {
        0
    } else if text::holds(id, "codex"@) {
        1
    } else if "gpt-5"@.is_prefix_of(id) && !text::holds(id, "mini"@) && !text::holds(id, "nano"@) {
        2
    } else if "gpt-5"@.is_prefix_of(id) {
        3
    } else {
        4
    }
}

/// How early the model is offered: the lower, the earlier.
pub fn model_rank(id: &str) -> (value: u8)
    ensures
        value == rank(id@),
{
    if text::contains(id, "codex") && !text::contains(id, "mini") {
        0
    } else if text::contains(id, "codex") {
        1
    } else if text::starts_with(id, "gpt-5") && !text::contains(id, "mini") && !text::contains(id, "nano") {
        2
    } else if text::starts_with(id, "gpt-5") {
        3
    } else {
        4
    }
}

/// Whether a model is offered before another: by rank, then by name.
pub open spec fn offered_before(left: Seq<char>, right: Seq<char>) -> bool {
    rank(left) < rank(right) || (rank(left) == rank(right) && lists::precedes(left, right))
}

/// Whether each model of a list is offered before the ones behind it.
pub open spec fn in_offer_order(list: Seq<Seq<char>>) -> bool {
    forall|i: int, j: int| 0 <= i < j < list.len() ==> offered_before(#[trigger] list[i], #[trigger] list[j])
}

/// The models of a list that can code, which have a rank.
pub open spec fn ranked(list: Seq<Seq<char>>, wanted: u8) -> Seq<Seq<char>>
    decreases list.len(),
{
    if list.len() == 0 {
        Seq::empty()
    } else if candidate(list.last()) && rank(list.last()) == wanted {
        ranked(list.drop_last(), wanted).push(list.last())
    } else {
        ranked(list.drop_last(), wanted)
    }
}

proof fn ranked_members(list: Seq<Seq<char>>, wanted: u8, s: Seq<char>)
    ensures
        ranked(list, wanted).contains(s) <==> list.contains(s) && candidate(s) && rank(s) == wanted,
    decreases list.len(),
{
    if list.len() > 0 {
        let rest = list.drop_last();
        ranked_members(rest, wanted, s);
        if list.contains(s) {
            let k = list.index_of(s);
            if k < rest.len() {
                assert(rest[k] == s);
            }
        }
        if rest.contains(s) {
            let k = rest.index_of(s);
            assert(list[k] == s);
        }
        assert(list[list.len() - 1] == list.last());
        let less = ranked(rest, wanted);
        let all = ranked(list, wanted);
        if candidate(list.last()) && rank(list.last()) == wanted {
            assert(all[less.len() as int] == list.last());
            if less.contains(s) {
                let k = less.index_of(s);
                assert(all[k] == s);
            }
            if all.contains(s) {
                let k = all.index_of(s);
                if k < less.len() {
                    assert(less[k] == s);
                }
            }
        }
    }
}

fn of_rank(list: &Vec<String>, wanted: u8) -> (result: Vec<String>)
    ensures
        lists::ascending(text::texts(result@)),
        forall|s: Seq<char>| #[trigger] text::texts(result@).contains(s) <==> text::texts(list@).contains(s) && candidate(s)
            && rank(s) == wanted,
{
    let mut found: Vec<String> = Vec::new();
    let ghost all = text::texts(list@);
    let mut at: usize = 0;
    assert(all.take(0) =~= Seq::<Seq<char>>::empty());
    assert(text::texts(found@) =~= ranked(all.take(0), wanted));
    while at < list.len()
        invariant
            at <= list@.len(),
            all == text::texts(list@),
            text::texts(found@) == ranked(all.take(at as int), wanted),
        decreases list@.len() - at,
    {
        proof {
            let next = all.take(at + 1);
            assert(next.drop_last() =~= all.take(at as int));
            assert(next.last() == list@[at as int]@);
        }
        if is_bender_model_candidate(list[at].as_str()) && model_rank(list[at].as_str()) == wanted {
            let ghost before = found@;
            found.push(list[at].clone());
            assert(text::texts(found@) =~= text::texts(before).push(list@[at as int]@));
        }
        at = at + 1;
    }
    assert(all.take(at as int) =~= all);
    let result = lists::sort_unique(&found);
    proof {
        assert forall|s: Seq<char>| #[trigger] text::texts(result@).contains(s) <==> all.contains(s) && candidate(s) && rank(s)
            == wanted by {
            ranked_members(all, wanted, s);
            assert(text::texts(result@).contains(s) <==> text::texts(found@).contains(s));
        }
    }
    result
}

/// The models of the OpenAI service that can code, each once, in the order in which they are
/// offered.
pub fn rank_models(ids: &Vec<String>) -> (models: Vec<String>)
    ensures
        in_offer_order(text::texts(models@)),
        forall|s: Seq<char>| #[trigger] text::texts(models@).contains(s) <==> text::texts(ids@).contains(s) && candidate(s),
{
    let ghost all = text::texts(ids@);
    let mut models: Vec<String> = Vec::new();
    let mut level: u8 = 0;
    while level < 5
        invariant
            level <= 5,
            all == text::texts(ids@),
            in_offer_order(text::texts(models@)),
            forall|s: Seq<char>| #[trigger] text::texts(models@).contains(s) <==> all.contains(s) && candidate(s) && rank(s)
                < level,
        decreases 5 - level,
    {
        let mut more = of_rank(ids, level);
        let ghost before = text::texts(models@);
        let ghost added = text::texts(more@);
        models.append(&mut more);
        proof {
            let after = text::texts(models@);
            assert(after =~= before + added);
            assert forall|i: int, j: int| 0 <= i < j < after.len() implies offered_before(#[trigger] after[i], #[trigger] after[j]) by {
                if j < before.len() {
                    assert(offered_before(before[i], before[j]));
                } else {
                    assert(added.contains(added[j - before.len()]));
                    if i < before.len() {
                        assert(before.contains(before[i]));
                    } else {
                        assert(added.contains(added[i - before.len()]));
                        assert(lists::precedes(added[i - before.len()], added[j - before.len()]));
                    }
                }
            }
            assert forall|s: Seq<char>| #[trigger] after.contains(s) <==> all.contains(s) && candidate(s) && rank(s) < level + 1 by {
                assert(before.contains(s) <==> all.contains(s) && candidate(s) && rank(s) < level);
                assert(added.contains(s) <==> all.contains(s) && candidate(s) && rank(s) == level);
                if before.contains(s) {
                    let k = before.index_of(s);
                    assert(after[k] == s);
                }
                if added.contains(s) {
                    let k = added.index_of(s);
                    assert(after[before.len() + k] == s);
                }
                if after.contains(s) {
                    let k = after.index_of(s);
                    if k < before.len() {
                        assert(before[k] == s);
                    } else {
                        assert(added[k - before.len()] == s);
                    }
                }
            }
        }
        level = level + 1;
    }
    models
}

proof fn requests_are_held(rules: Seq<char>, tools: Seq<char>, instruction: Seq<char>, context: Seq<char>)
    ensures
        ({
            let prompt = rules + tools + "\n\nUser request:\n"@ + instruction + "\n\n"@ + context + "\n"@;
            &&& text::holds(prompt, tools)
            &&& text::holds(prompt, "\n\nUser request:\n"@ + instruction)
            &&& text::holds(prompt, context)
        }),
{
    let a = rules + tools;
    let b = a + "\n\nUser request:\n"@ + instruction;
    let c = b + "\n\n"@ + context;
    let prompt = c + "\n"@;
    text::parts_are_held(rules, tools, Seq::empty());
    assert(rules + tools + Seq::<char>::empty() =~= a);
    text::additions_are_held(a, "\n\nUser request:\n"@, instruction, tools);
    text::additions_are_held(b, "\n\n"@, context, tools);
    text::additions_are_held(b, "\n\n"@, context, "\n\nUser request:\n"@ + instruction);
    text::parts_are_held(Seq::empty(), c, "\n"@);
    assert(Seq::<char>::empty() + c + "\n"@ =~= prompt);
    text::holding_is_transitive(prompt, c, tools);
    text::holding_is_transitive(prompt, c, "\n\nUser request:\n"@ + instruction);
    text::holding_is_transitive(prompt, c, context);
}

// ---------------------------------------------------------------------------
// What always holds
// ---------------------------------------------------------------------------

/// An answer is taken only from a response that completed: not from one that is no document, reports an
/// error, or has another status. What is taken is the text that the response names, where it names one.
pub proof fn answers_come_from_completed_responses(body: Seq<char>)
    ensures
        json::json_document(body) is None ==> openai_answer(body) is Err,
        json::json_document(body) matches Some(reply) ==> {
            &&& reply.member("error"@) is Some && !(reply.member("error"@)->0 is Null) ==> openai_answer(body) is Err
            &&& reply.member_string("status"@) matches Some(status) ==> status != "completed"@ ==> openai_answer(body) is Err
            &&& reply.member("error"@) is None && reply.member_string("status"@) == Some("completed"@)
                && reply.member_string("output_text"@) is Some ==> openai_answer(body) == Ok::<Seq<char>, Seq<char>>(
                reply.member_string("output_text"@)->0,
            )
            &&& reply.member("error"@) is None && reply.member("status"@) is None && reply.member_string("output_text"@) is Some
                ==> openai_answer(body) == Ok::<Seq<char>, Seq<char>>(reply.member_string("output_text"@)->0)
        },
{
}

/// Each service answers where its replies have the text: in the message of the first choice, in the
/// message, or in the items of the content that are texts.
pub proof fn services_answer_in_their_replies(body: Seq<char>, reply: Json, content: Seq<char>)
    requires
        json::json_document(body) == Some(reply),
    ensures
        reply.member("message"@) is Some && reply.member("message"@)->0.member_string("content"@) == Some(content)
            ==> Service::Ollama.answer(body) == Ok::<Seq<char>, Seq<char>>(content),
        reply.member_items("choices"@).len() > 0 && reply.member_items("choices"@)[0].member("message"@) is Some
            && reply.member_items("choices"@)[0].member("message"@)->0.member_string("content"@) == Some(content)
            ==> Service::Chat.answer(body) == Ok::<Seq<char>, Seq<char>>(content),
        reply.member_items("content"@).len() == 1 && reply.member_items("content"@)[0].member_string("type"@) == Some("text"@)
            && reply.member_items("content"@)[0].member_string("text"@) == Some(content) && !text::blank(content)
            ==> Service::Anthropic.answer(body) == Ok::<Seq<char>, Seq<char>>(content),
        reply.member("message"@) is None ==> Service::Ollama.answer(body) is Err,
        reply.member_items("choices"@).len() == 0 ==> Service::Chat.answer(body) is Err,
{
    let items = reply.member_items("content"@);
    if items.len() == 1 {
        assert(items.drop_last() =~= Seq::<Json>::empty());
        assert(items_text(Seq::<Json>::empty()) == Seq::<char>::empty());
        assert(items_text(items) =~= item_text(items[0]));
    }
}

/// A model is offered only by its name of a text model: none for sound, pictures, search, speech,
/// moderation or embeddings. Models for code come first, small ones behind the others of their kind.
pub proof fn models_for_code_come_first(left: Seq<char>, right: Seq<char>)
    ensures
        text::holds(left, "audio"@) || text::holds(left, "image"@) || text::holds(left, "realtime"@) || text::holds(
            left,
            "search"@,
        ) || text::holds(left, "transcribe"@) || text::holds(left, "tts"@) || text::holds(left, "moderation"@) || text::holds(
            left,
            "embedding"@,
        ) ==> !candidate(left),
        candidate(left) ==> "gpt-"@.is_prefix_of(left) || "codex-"@.is_prefix_of(left),
        text::holds(left, "codex"@) && !text::holds(right, "codex"@) ==> offered_before(left, right),
        text::holds(left, "codex"@) && text::holds(right, "codex"@) && !text::holds(left, "mini"@) && text::holds(right, "mini"@)
            ==> offered_before(left, right),
        !text::holds(left, "codex"@) && !text::holds(right, "codex"@) && "gpt-5"@.is_prefix_of(left) && !"gpt-5"@.is_prefix_of(
            right,
        ) ==> offered_before(left, right),
        !text::holds(left, "codex"@) && !text::holds(right, "codex"@) && "gpt-5"@.is_prefix_of(left) && "gpt-5"@.is_prefix_of(
            right,
        ) && !text::holds(left, "mini"@) && !text::holds(left, "nano"@) && (text::holds(right, "mini"@) || text::holds(
            right,
            "nano"@,
        )) ==> offered_before(left, right),
        offered_before(left, right) ==> !offered_before(right, left),
{
    if offered_before(left, right) && offered_before(right, left) {
        lists::precedes_transitive(left, right, left);
        lists::precedes_irreflexive(left);
    }
}

} // verus!
