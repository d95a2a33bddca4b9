//! JSON values: how they are made and read, and what they hold.

use vstd::prelude::*;
use crate::number::is_digit;
use crate::text::{is_blank, padded, trimmed};

verus! {

/// `serde_json::Value`, a JSON value.
#[verifier::external_type_specification]
#[verifier::external_body]
pub struct ExValue(serde_json::Value);

/// What a JSON value holds.
pub enum Json {
    Null,
    Bool(bool),
    /// A number, as text.
    Number(Seq<char>),
    Text(Seq<char>),
    Array(Seq<Json>),
    Object(Map<Seq<char>, Json>),
}

/// What a `serde_json::Value` holds.
pub uninterp spec fn json_view(value: serde_json::Value) -> Json;

/// What the value holds that `serde_json::from_str` reads from a text, if it
/// reads one.
pub uninterp spec fn json_read(text: Seq<char>) -> Option<Json>;

/// What a list of values holds.
pub open spec fn json_views(values: Seq<serde_json::Value>) -> Seq<Json> {
    values.map_values(|value: serde_json::Value| json_view(value))
}

/// The members of an object that is made of keys and values.
pub open spec fn members(entries: Seq<(String, serde_json::Value)>) -> Map<Seq<char>, Json>
    decreases entries.len(),
{
    if entries.len() == 0 {
        Map::empty()
    } else {
        members(entries.drop_last()).insert(entries.last().0@, json_view(entries.last().1))
    }
}

/// No key stands twice among keys and values.
pub open spec fn keys_differ(entries: Seq<(String, serde_json::Value)>) -> bool {
    forall|i: int, j: int|
        0 <= i < j < entries.len() ==> (#[trigger] entries[i]).0@ != (#[trigger] entries[j]).0@
}

/// A text that has the outer form of a JSON value: it is one of the three words,
/// or starts and ends as numbers, strings, arrays and objects do.
pub open spec fn has_json_form(s: Seq<char>) -> bool {
    ||| s == "null"@
    ||| s == "true"@
    ||| s == "false"@
    ||| s.len() > 0 && (s[0] == '-' || is_digit(s[0])) && is_digit(s.last())
    ||| s.len() > 1 && s[0] == '"' && s.last() == '"'
    ||| s.len() > 1 && s[0] == '[' && s.last() == ']'
    ||| s.len() > 1 && s[0] == '{' && s.last() == '}'
}

/// `serde_json::from_str`, reading any JSON value: whether it reads one, and
/// what that holds, depends on the text alone. It refuses what has not the outer
/// form of a JSON value, whatever white space is around that. Where it reads the
/// text with some white space around it, it reads the same value from the text
/// itself.
#[verifier::external_body]
pub(crate) fn read_json(text: &str) -> (res: Option<serde_json::Value>)
    ensures
        match res {
            Some(value) => json_read(text@) == Some(json_view(value)),
            None => json_read(text@) is None,
        },
        res is Some ==> has_json_form(trimmed(text@)),
        forall|before: Seq<char>, after: Seq<char>|
            is_blank(before) && is_blank(after) ==> match json_read(
                #[trigger] padded(before, text@, after),
            ) {
                Some(read) => res matches Some(value) && json_view(value) == read,
                None => true,
            },
{
    serde_json::from_str(text).ok()
}

/// `serde_json::Value::Null` holds nothing.
#[verifier::external_body]
pub(crate) fn json_null() -> (res: serde_json::Value)
    ensures
        json_view(res) == Json::Null,
{
    serde_json::Value::Null
}

/// `serde_json::Value::String` holds the given text.
#[verifier::external_body]
pub(crate) fn json_text(text: String) -> (res: serde_json::Value)
    ensures
        json_view(res) == Json::Text(text@),
{
    serde_json::Value::String(text)
}

/// `serde_json::Value::Array` holds the given values, in order.
#[verifier::external_body]
pub(crate) fn json_array(items: Vec<serde_json::Value>) -> (res: serde_json::Value)
    ensures
        json_view(res) == Json::Array(json_views(items@)),
{
    serde_json::Value::Array(items)
}

/// `serde_json::Value::Object`, of a `serde_json::Map` that is collected from
/// keys and values: it holds each value under its key.
#[verifier::external_body]
pub(crate) fn json_object(entries: Vec<(String, serde_json::Value)>) -> (res: serde_json::Value)
    requires
        keys_differ(entries@),
    ensures
        json_view(res) == Json::Object(members(entries@)),
{
    serde_json::Value::Object(serde_json::Map::from_iter(entries))
}

} // verus!
