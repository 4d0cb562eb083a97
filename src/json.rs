//! A JSON document as a tree of plain values, and lookups in it.
use vstd::prelude::*;

verus! {

/// A JSON value. A number is held as the decimal text that writes it, so
/// that no precision is lost before the library reads it exactly.
pub enum JsonValue {
    Null,
    Bool(bool),
    Number(Vec<char>),
    Str(String),
    Array(Vec<JsonValue>),
    Object(Vec<(String, JsonValue)>),
}

#[verifier::external_type_specification]
#[verifier::external_body]
pub struct ExJsonTree(serde_json::Value);

/// The tree that the JSON text `text` writes, `None` where `text` is not one
/// well-formed JSON document.
pub uninterp spec fn json_document(text: Seq<char>) -> Option<JsonValue>;

/// Relies on serde_json::from_str: reads `text` as one JSON document and
/// fails on anything else. Objects come out with their keys unique.
#[verifier::external_body]
pub fn parse_document(text: &str) -> (r: Option<JsonValue>)
    ensures
        r == json_document(text@),
{
    serde_json::from_str::<serde_json::Value>(text).ok().map(tree_of)
}

/// Changes a `serde_json::Value` into the same tree of `JsonValue`, variant
/// for variant; numbers go through serde_json's `Display` of `Number`.
#[verifier::external_body]
fn tree_of(v: serde_json::Value) -> JsonValue {
    match v {
        serde_json::Value::Null => JsonValue::Null,
        serde_json::Value::Bool(b) => JsonValue::Bool(b),
        serde_json::Value::Number(n) => JsonValue::Number(n.to_string().chars().collect()),
        serde_json::Value::String(s) => JsonValue::Str(s),
        serde_json::Value::Array(a) => JsonValue::Array(a.into_iter().map(tree_of).collect()),
        serde_json::Value::Object(m) => JsonValue::Object(
            m.into_iter().map(|(k, x)| (k, tree_of(x))).collect(),
        ),
    }
}

/// The value of the first entry named `key`.
pub open spec fn entry_of(entries: Seq<(String, JsonValue)>, key: Seq<char>) -> Option<JsonValue>
    decreases entries.len(),
{
    if entries.len() == 0 {
        None
    } else if entries[0].0@ == key {
        Some(entries[0].1)
    } else {
        entry_of(entries.drop_first(), key)
    }
}

/// The member `key` of `v`, where `v` is an object that has one.
pub open spec fn member_of(v: Option<JsonValue>, key: Seq<char>) -> Option<JsonValue> {
    match v {
        Some(JsonValue::Object(entries)) => entry_of(entries@, key),
        _ => None,
    }
}

/// Element `i` of `v`, where `v` is an array that long.
pub open spec fn element_of(v: Option<JsonValue>, i: int) -> Option<JsonValue> {
    match v {
        Some(JsonValue::Array(items)) => if 0 <= i < items.len() {
            Some(items@[i])
        } else {
            None
        },
        _ => None,
    }
}

/// The text of `v`, where `v` is a string.
pub open spec fn text_of(v: Option<JsonValue>) -> Option<Seq<char>> {
    match v {
        Some(JsonValue::Str(s)) => Some(s@),
        _ => None,
    }
}

/// The value that `v` refers to, if any.
pub open spec fn target(v: Option<&JsonValue>) -> Option<JsonValue> {
    match v {
        Some(x) => Some(*x),
        None => None,
    }
}

/// `r` refers to the value `v` stands for, and to nothing where `v` is `None`.
pub open spec fn refers_to(r: Option<&JsonValue>, v: Option<JsonValue>) -> bool {
    match r {
        Some(x) => v == Some(*x),
        None => v is None,
    }
}

/// The member `key` of `v`, where `v` is an object that has one.
pub fn member<'a>(v: Option<&'a JsonValue>, key: &str) -> (r: Option<&'a JsonValue>)
    ensures
        refers_to(r, member_of(target(v), key@)),
{
    let x = match v {
        Some(x) => x,
        None => return None,
    };
    match x {
        JsonValue::Object(entries) => {
            let wanted = key.to_owned();
            let mut i: usize = 0;
            assert(entries@.skip(0) == entries@);
            assert(member_of(target(v), key@) == entry_of(entries@, key@));
            while i < entries.len()
                invariant
                    i <= entries@.len(),
                    wanted@ == key@,
                    member_of(target(v), key@) == entry_of(entries@, key@),
                    entry_of(entries@, key@) == entry_of(entries@.skip(i as int), key@),
                decreases entries@.len() - i,
            {
                assert(entries@.skip(i as int).drop_first() == entries@.skip(i as int + 1));
                if entries[i].0 == wanted {
                    assert(entries@.skip(i as int)[0] == entries@[i as int]);
                    assert(entries@[i as int].0@ == key@);
                    assert(entry_of(entries@.skip(i as int), key@) == Some(entries@[i as int].1));
                    return Some(&entries[i].1);
                }
                i = i + 1;
            }
            None
        },
        _ => None,
    }
}

/// Element `i` of `v`, where `v` is an array that long.
pub fn element<'a>(v: Option<&'a JsonValue>, i: usize) -> (r: Option<&'a JsonValue>)
    ensures
        refers_to(r, element_of(target(v), i as int)),
{
    match v {
        Some(JsonValue::Array(items)) => if i < items.len() {
            Some(&items[i])
        } else {
            None
        },
        _ => None,
    }
}

/// The text of `v`, where `v` is a string.
pub fn text<'a>(v: Option<&'a JsonValue>) -> (r: Option<&'a String>)
    ensures
        match r {
            Some(s) => text_of(target(v)) == Some(s@),
            None => text_of(target(v)) is None,
        },
{
    match v {
        Some(JsonValue::Str(s)) => Some(s),
        _ => None,
    }
}

} // verus!
