//! JSON documents.

use vstd::prelude::*;

use crate::text;

verus! {

/// A JSON value. Of a number it is known only whether it is a whole number of 64 bits without sign,
/// and which.
#[derive(Debug)]
pub enum Json {
    Null,
    Bool(bool),
    Number(Option<u64>),
    Text(String),
    List(Vec<Json>),
    Object(Vec<Member>),
}

/// One member of a JSON object.
#[derive(Debug)]
pub struct Member {
    pub key: String,
    pub value: Json,
}

/// `serde_json::Value`, a parsed document.
#[verifier::external_type_specification]
#[verifier::external_body]
pub struct ExValue(serde_json::Value);

/// `serde_json::Error`, why a text is no document.
#[verifier::external_type_specification]
#[verifier::external_body]
pub struct ExError(serde_json::Error);

/// The value that a text is the JSON document of, where it is one.
pub uninterp spec fn json_document(s: Seq<char>) -> Option<Json>;

/// What a parsed document holds.
pub uninterp spec fn json_tree(value: serde_json::Value) -> Json;

/// Calls `serde_json::from_str` for a `serde_json::Value`. Whether it succeeds, and what the value
/// holds, are functions of the text alone; the contract names them and says nothing of the grammar.
#[verifier::external_body]
fn parse_value(text: &str) -> (result: Result<serde_json::Value, serde_json::Error>)
    ensures
        match result {
            Ok(value) => json_document(text@) == Some(json_tree(value)),
            Err(_) => json_document(text@) is None,
        },
{
    serde_json::from_str(text)
}

/// Takes a `serde_json::Value` apart, one variant into one variant, with `Number::as_u64` for its
/// numbers and the members of a `Map` in the order of its iterator. The contract names the result.
#[verifier::external_body]
fn tree_of(value: serde_json::Value) -> (tree: Json)
    ensures
        tree == json_tree(value),
{
    match value {
        serde_json::Value::Null => Json::Null,
        serde_json::Value::Bool(truth) => Json::Bool(truth),
        serde_json::Value::Number(number) => Json::Number(number.as_u64()),
        serde_json::Value::String(string) => Json::Text(string),
        serde_json::Value::Array(items) => Json::List(items.into_iter().map(tree_of).collect()),
        serde_json::Value::Object(map) => Json::Object(
            map.into_iter().map(|(key, value)| Member { key, value: tree_of(value) }).collect(),
        ),
    }
}

/// The value that the text is the JSON document of, where it is one.
pub fn parse(text: &str) -> (document: Option<Json>)
    ensures
        document == json_document(text@),
{
    match parse_value(text) {
        Ok(value) => Some(tree_of(value)),
        Err(_) => None,
    }
}

/// The compact form in which the value is printed that a text is the JSON document of.
pub uninterp spec fn written_document(s: Seq<char>) -> Option<Seq<char>>;

/// The compact form in which a member is printed of the object that a text is the JSON document of.
pub uninterp spec fn written_member(s: Seq<char>, key: Seq<char>) -> Option<Seq<char>>;

/// The indented form in which the value is printed that a text is the JSON document of.
pub uninterp spec fn pretty_document(s: Seq<char>) -> Option<Seq<char>>;

/// Calls `serde_json::from_str` for a `serde_json::Value` and the `Display` of that value. The printed
/// form is a function of the text alone, which the contract names, and there is one exactly where the
/// text is a document; how numbers, texts and the order of members are printed is left unsaid.
#[verifier::external_body]
pub(crate) fn written(text: &str) -> (shown: Option<String>)
    ensures
        crate::model::view_of(shown) == written_document(text@),
        shown is Some <==> json_document(text@) is Some,
{
    serde_json::from_str::<serde_json::Value>(text).ok().map(|value| value.to_string())
}

/// Calls `serde_json::from_str` for a `serde_json::Value`, `Value::get` with the key, and the `Display`
/// of the member. The printed form is a function of the text and the key alone, which the contract
/// names, and there is one exactly where the text is the document of an object with that member.
#[verifier::external_body]
pub(crate) fn written_at(text: &str, key: &str) -> (shown: Option<String>)
    ensures
        crate::model::view_of(shown) == written_member(text@, key@),
        shown is Some <==> (json_document(text@) is Some && json_document(text@)->0.member(key@) is Some),
{
    serde_json::from_str::<serde_json::Value>(text).ok()?.get(key).map(|member| member.to_string())
}

/// Calls `serde_json::from_str` for a `serde_json::Value` and `serde_json::to_string_pretty` of that
/// value, which prints every value. The printed form is a function of the text alone, which the
/// contract names, and there is one exactly where the text is a document; how it is indented is left
/// unsaid.
#[verifier::external_body]
pub(crate) fn pretty(text: &str) -> (shown: Option<String>)
    ensures
        crate::model::view_of(shown) == pretty_document(text@),
        shown is Some <==> json_document(text@) is Some,
{
    serde_json::from_str::<serde_json::Value>(text).ok().and_then(|value| serde_json::to_string_pretty(&value).ok())
}

/// The position of the first member with the key, or the number of members where there is none.
pub open spec fn member_index(members: Seq<Member>, key: Seq<char>) -> int
    decreases members.len(),
{
    if members.len() == 0 || members.first().key@ == key {
        0
    } else {
        1 + member_index(members.drop_first(), key)
    }
}

proof fn member_index_is(members: Seq<Member>, key: Seq<char>, k: int)
    requires
        0 <= k <= members.len(),
        forall|i: int| 0 <= i < k ==> (#[trigger] members[i]).key@ != key,
        k < members.len() ==> members[k].key@ == key,
    ensures
        member_index(members, key) == k,
    decreases k,
{
    if k > 0 {
        assert(members[0].key@ != key);
        let rest = members.drop_first();
        assert forall|i: int| 0 <= i < k - 1 implies (#[trigger] rest[i]).key@ != key by {
            assert(rest[i] == members[i + 1]);
        }
        member_index_is(rest, key, k - 1);
    }
}

proof fn member_index_found(members: Seq<Member>, key: Seq<char>)
    ensures
        0 <= member_index(members, key) <= members.len(),
    decreases members.len(),
{
    if members.len() > 0 {
        member_index_found(members.drop_first(), key);
    }
}

impl Json {
    /// The value of a member of an object.
    pub open spec fn member(self, key: Seq<char>) -> Option<Json> {
        match self {
            Json::Object(members) => {
                let i = member_index(members@, key);
                if 0 <= i < members@.len() {
                    Some(members@[i].value)
                } else {
                    None
                }
            },
            _ => None,
        }
    }

    /// The text that a value is.
    pub open spec fn string(self) -> Option<Seq<char>> {
        match self {
            Json::Text(string) => Some(string@),
            _ => None,
        }
    }

    /// The number that a value is.
    pub open spec fn number(self) -> Option<u64> {
        match self {
            Json::Number(number) => number,
            _ => None,
        }
    }

    /// The text of a member, where it is one.
    pub open spec fn member_string(self, key: Seq<char>) -> Option<Seq<char>> {
        match self.member(key) {
            Some(value) => value.string(),
            None => None,
        }
    }

    /// The items of a member, none where it is no list.
    pub open spec fn member_items(self, key: Seq<char>) -> Seq<Json> {
        match self.member(key) {
            Some(Json::List(items)) => items@,
            _ => Seq::empty(),
        }
    }

    /// The value of a member of an object.
    pub fn get(&self, key: &str) -> (value: Option<&Json>)
        ensures
            match value {
                Some(value) => self.member(key@) == Some(*value) && decreases_to!(*self => *value),
                None => self.member(key@) is None,
            },
    {
        match self {
            Json::Object(members) => {
                let mut at: usize = 0;
                while at < members.len() && !text::same(members[at].key.as_str(), key)
                    invariant
                        at <= members@.len(),
                        forall|i: int| 0 <= i < at ==> (#[trigger] members@[i]).key@ != key@,
                    decreases members@.len() - at,
                {
                    at = at + 1;
                }
                proof {
                    member_index_is(members@, key@, at as int);
                }
                if at < members.len() {
                    let found = &members[at].value;
                    proof {
                        assert(decreases_to!(*self => *members));
                        assert(decreases_to!(*members => members@));
                        assert(decreases_to!(members@ => members@[at as int]));
                        assert(decreases_to!(members@[at as int] => members@[at as int].value));
                    }
                    Some(found)
                } else {
                    None
                }
            },
            _ => None,
        }
    }

    /// The text that a value is.
    pub fn as_str(&self) -> (value: Option<&str>)
        ensures
            match value {
                Some(value) => self.string() == Some(value@),
                None => self.string() is None,
            },
    {
        match self {
            Json::Text(string) => Some(string.as_str()),
            _ => None,
        }
    }

    /// The text of a member, where it is one.
    pub fn get_str(&self, key: &str) -> (value: Option<&str>)
        ensures
            match value {
                Some(value) => self.member_string(key@) == Some(value@),
                None => self.member_string(key@) is None,
            },
    {
        match self.get(key) {
            Some(value) => value.as_str(),
            None => None,
        }
    }

    /// The number of a member, where it is one.
    pub fn get_number(&self, key: &str) -> (value: Option<u64>)
        ensures
            value == match self.member(key@) {
                Some(value) => value.number(),
                None => None,
            },
    {
        match self.get(key) {
            Some(Json::Number(number)) => *number,
            _ => None,
        }
    }

    /// The items of a member, where it is a list.
    pub fn get_items(&self, key: &str) -> (items: Option<&Vec<Json>>)
        ensures
            match items {
                Some(items) => self.member(key@) matches Some(Json::List(list)) && *items == list
                    && self.member_items(key@) == items@ && decreases_to!(*self => items@),
                None => self.member_items(key@).len() == 0 && !(self.member(key@) matches Some(Json::List(_))),
            },
    {
        match self.get(key) {
            Some(value) => match value {
                Json::List(items) => {
                    proof {
                        assert(decreases_to!(*value => *items));
                        assert(decreases_to!(*items => items@));
                    }
                    Some(items)
                },
                _ => None,
            },
            None => None,
        }
    }
}

/// The items of a member are below the value that they are in.
pub proof fn items_are_below(value: Json, key: Seq<char>, i: int)
    requires
        0 <= i < value.member_items(key).len(),
    ensures
        decreases_to!(value => value.member_items(key)[i]),
{
    if let Json::Object(members) = value {
        let k = member_index(members@, key);
        member_index_found(members@, key);
        let member = members@[k];
        assert(decreases_to!(value => members));
        assert(decreases_to!(members => members@));
        assert(decreases_to!(members@ => member));
        assert(decreases_to!(member => member.value));
        if let Json::List(items) = member.value {
            assert(decreases_to!(member.value => items));
            assert(decreases_to!(items => items@));
            assert(decreases_to!(items@ => items@[i]));
        }
    }
}

/// The member of an object is below the object.
pub proof fn members_are_below(value: Json, key: Seq<char>)
    requires
        value.member(key) is Some,
    ensures
        decreases_to!(value => value.member(key)->0),
{
    if let Json::Object(members) = value {
        let k = member_index(members@, key);
        let member = members@[k];
        assert(decreases_to!(value => members));
        assert(decreases_to!(members => members@));
        assert(decreases_to!(members@ => member));
        assert(decreases_to!(member => member.value));
    }
}

} // verus!
