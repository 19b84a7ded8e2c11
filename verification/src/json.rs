//! JSON values as `serde_json` holds them, and what they hold.

use vstd::prelude::*;
use vstd::string::*;

verus! {

/// `serde_json::Value`, opaque: what a value holds is `json_contents` of it.
#[verifier::external_type_specification]
#[verifier::external_body]
pub struct ExValue(serde_json::Value);

/// `serde_json::Error`, opaque.
#[verifier::external_type_specification]
#[verifier::external_body]
pub struct ExJsonError(serde_json::Error);

/// What a JSON value holds. Of a number only its value as a `u64` is told,
/// where it has one.
pub enum JsonView {
    Null,
    Bool(bool),
    Number(Option<u64>),
    Text(Seq<char>),
    Array(Seq<JsonView>),
    Object(Map<Seq<char>, JsonView>),
}

impl JsonView {
    /// The member of that name, if this is an object that has one.
    pub open spec fn find(self, key: Seq<char>) -> Option<JsonView> {
        match self {
            JsonView::Object(members) => if members.contains_key(key) {
                Some(members[key])
            } else {
                None
            },
            _ => None,
        }
    }

    /// The member of that name, or `Null` where there is none.
    pub open spec fn member(self, key: Seq<char>) -> JsonView {
        match self.find(key) {
            Some(value) => value,
            None => JsonView::Null,
        }
    }

    /// The text, if this is one.
    pub open spec fn text(self) -> Option<Seq<char>> {
        match self {
            JsonView::Text(s) => Some(s),
            _ => None,
        }
    }

    /// The truth value, if this is one.
    pub open spec fn flag(self) -> Option<bool> {
        match self {
            JsonView::Bool(b) => Some(b),
            _ => None,
        }
    }

    /// The number, if this is one that a `u64` can hold.
    pub open spec fn number(self) -> Option<u64> {
        match self {
            JsonView::Number(n) => n,
            _ => None,
        }
    }

    /// The elements, if this is an array.
    pub open spec fn items(self) -> Option<Seq<JsonView>> {
        match self {
            JsonView::Array(items) => Some(items),
            _ => None,
        }
    }
}

/// What a `serde_json::Value` holds.
pub uninterp spec fn json_contents(value: serde_json::Value) -> JsonView;

/// What `serde_json::from_str` makes of a text: the contents of the value that
/// it reads, or `None` where the text is not JSON that it accepts.
pub uninterp spec fn json_parsed(text: Seq<char>) -> Option<JsonView>;

/// What `serde_json::from_slice` makes of a sequence of bytes: the contents of
/// the value that it reads, or `None` where the bytes are not JSON that it
/// accepts.
pub uninterp spec fn json_parsed_bytes(bytes: Seq<u8>) -> Option<JsonView>;

/// The text that `serde_json` writes for the object with these members, of
/// which each is a text. Of two members with one name, the later one counts.
pub uninterp spec fn json_object_text(members: Seq<(Seq<char>, Seq<char>)>) -> Seq<char>;

/// The object with these members, of which each is a text. Of two members with
/// one name, the later one counts.
pub open spec fn object_of(members: Seq<(Seq<char>, Seq<char>)>) -> JsonView {
    JsonView::Object(members_of(members))
}

/// The members of `object_of`, by name.
pub open spec fn members_of(members: Seq<(Seq<char>, Seq<char>)>) -> Map<Seq<char>, JsonView>
    decreases members.len(),
{
    if members.len() == 0 {
        Map::empty()
    } else {
        members_of(members.drop_last()).insert(
            members.last().0,
            JsonView::Text(members.last().1),
        )
    }
}

/// The members of an object to be written, by what their names and texts hold.
pub open spec fn members_view(members: Seq<(String, String)>) -> Seq<(Seq<char>, Seq<char>)> {
    members.map_values(|member: (String, String)| (member.0@, member.1@))
}

/// Whether `text` is the JSON text of the object with these members: the one
/// that `serde_json` writes, and one that reads back as that object.
pub open spec fn is_object_text(text: Seq<char>, members: Seq<(Seq<char>, Seq<char>)>) -> bool {
    &&& text == json_object_text(members)
    &&& json_parsed(text) == Some(object_of(members))
}

/// `serde_json::from_str`, reading a `Value`: it succeeds on the texts that
/// `json_parsed` gives contents to, with those contents.
#[verifier::external_body]
pub(crate) fn parse_text(text: &str) -> (parsed: Result<serde_json::Value, serde_json::Error>)
    ensures
        match parsed {
            Ok(value) => json_parsed(text@) == Some(json_contents(value)),
            Err(_) => json_parsed(text@) is None,
        },
{
    serde_json::from_str(text)
}

/// `serde_json::from_slice`, reading a `Value`: it succeeds on the bytes that
/// `json_parsed_bytes` gives contents to, with those contents.
#[verifier::external_body]
pub(crate) fn parse_bytes(bytes: &[u8]) -> (parsed: Result<serde_json::Value, serde_json::Error>)
    ensures
        match parsed {
            Ok(value) => json_parsed_bytes(bytes@) == Some(json_contents(value)),
            Err(_) => json_parsed_bytes(bytes@) is None,
        },
{
    serde_json::from_slice(bytes)
}

/// `serde_json::Value::get` with a name: the member of that name, where the
/// value is an object that has one.
#[verifier::external_body]
pub(crate) fn value_get<'a>(value: &'a serde_json::Value, key: &str) -> (found: Option<
    &'a serde_json::Value,
>)
    ensures
        match found {
            Some(member) => json_contents(*value).find(key@) == Some(json_contents(*member)),
            None => json_contents(*value).find(key@) is None,
        },
{
    value.get(key)
}

/// `serde_json::Value::as_str`: the text, where the value is one.
#[verifier::external_body]
pub(crate) fn value_as_str(value: &serde_json::Value) -> (text: Option<&str>)
    ensures
        match text {
            Some(s) => json_contents(*value).text() == Some(s@),
            None => json_contents(*value).text() is None,
        },
{
    value.as_str()
}

/// `serde_json::Value::as_bool`: the truth value, where the value is one.
#[verifier::external_body]
pub(crate) fn value_as_bool(value: &serde_json::Value) -> (flag: Option<bool>)
    ensures
        flag == json_contents(*value).flag(),
{
    value.as_bool()
}

/// `serde_json::Value::as_u64`: the number, where the value is one that a `u64`
/// can hold.
#[verifier::external_body]
pub(crate) fn value_as_u64(value: &serde_json::Value) -> (number: Option<u64>)
    ensures
        number == json_contents(*value).number(),
{
    value.as_u64()
}

/// `serde_json::Value::as_array`: the elements in order, where the value is an
/// array.
#[verifier::external_body]
pub(crate) fn value_as_array(value: &serde_json::Value) -> (items: Option<&Vec<serde_json::Value>>)
    ensures
        match items {
            Some(elements) => json_contents(*value).items() == Some(
                elements@.map_values(|element: serde_json::Value| json_contents(element)),
            ),
            None => json_contents(*value).items() is None,
        },
{
    value.as_array()
}

/// `serde_json::Value::to_string` of an object whose members are texts: the
/// text that `json_object_text` names, which `serde_json::from_str` reads back
/// as that object.
#[verifier::external_body]
pub(crate) fn object_text(members: Vec<(String, String)>) -> (text: String)
    ensures
        text@ == json_object_text(members_view(members@)),
        json_parsed(text@) == Some(object_of(members_view(members@))),
{
    let object: serde_json::Map<String, serde_json::Value> = members
        .into_iter()
        .map(|(name, text)| (name, serde_json::Value::String(text)))
        .collect();
    serde_json::Value::Object(object).to_string()
}

/// What an optional string holds.
pub open spec fn text_view(text: Option<String>) -> Option<Seq<char>> {
    match text {
        Some(s) => Some(s@),
        None => None,
    }
}

/// The text that a value has as a member of that name.
pub(crate) fn member_text(value: &serde_json::Value, key: &str) -> (text: Option<String>)
    ensures
        text_view(text) == json_contents(*value).member(key@).text(),
{
    match value_get(value, key) {
        Some(member) => match value_as_str(member) {
            Some(s) => Some(s.to_string()),
            None => None,
        },
        None => None,
    }
}

/// What is seen of an optional string is whether it is there, and its characters.
pub proof fn law_texts_are_seen(text: String)
    ensures
        text_view(Some(text)) == Some(text@),
        text_view(None) is None,
{
}

/// Each member of an object to be written is seen, in order.
pub proof fn law_members_are_seen(members: Seq<(String, String)>)
    ensures
        members_view(members).len() == members.len(),
        forall|i: int|
            0 <= i < members.len() ==> #[trigger] members_view(members)[i] == (
                members[i].0@,
                members[i].1@,
            ),
{
}

/// A member that a value has is found, whatever it is called and holds; one that
/// it has not is `Null`.
pub proof fn law_members_are_found(value: JsonView, key: Seq<char>, member: JsonView)
    ensures
        value.find(key) == Some(member) ==> value.member(key) == member,
        value.find(key) is None ==> value.member(key) == JsonView::Null,
        value.member(key).text() is Some <==> value.find(key) matches Some(JsonView::Text(_)),
{
}

} // verus!
