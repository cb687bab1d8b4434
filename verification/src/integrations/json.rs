//! A JSON value as the integrations read it, and the plain text of an
//! Atlassian Document Format (ADF) description.

use vstd::prelude::*;

use super::github_app::{parse_u64, parse_u64_text};
use crate::text::{push_char, push_str, str_eq};

verus! {

/// A JSON value. A number is kept as its JSON text; object members keep
/// the order in which they were read.
#[derive(Debug)]
pub enum JsonValue {
    Null,
    Bool(bool),
    Number(String),
    String(String),
    Array(Vec<JsonValue>),
    Object(Vec<(String, JsonValue)>),
}

/// Index of the first member of `fields`, from `i` on, named `key`; `-1`
/// when there is none.
pub open spec fn field_pos_from(fields: Seq<(String, JsonValue)>, key: Seq<char>, i: int) -> int
    decreases fields.len() - i,
{
    if i < 0 || i >= fields.len() {
        -1
    } else if fields[i].0@ == key {
        i
    } else {
        field_pos_from(fields, key, i + 1)
    }
}

/// Index of the first member of `fields` named `key`, `-1` when absent.
pub open spec fn field_pos(fields: Seq<(String, JsonValue)>, key: Seq<char>) -> int {
    field_pos_from(fields, key, 0)
}

/// The member of `v` named `key`, when `v` is an object that has one.
pub open spec fn get_field(v: JsonValue, key: Seq<char>) -> Option<JsonValue> {
    match v {
        JsonValue::Object(fields) => {
            let p = field_pos(fields@, key);
            if 0 <= p < fields@.len() {
                Some(fields@[p].1)
            } else {
                None
            }
        },
        _ => None,
    }
}

/// Plain text of a description value: a string is itself; an object with
/// `content` gives the text of that content; an object with `text` gives
/// that string (empty when it is not one); an array gives the texts of its
/// items joined with spaces; anything else is empty.
pub open spec fn plain_text(v: JsonValue) -> Seq<char>
    decreases v, 0nat,
{
    match v {
        JsonValue::String(s) => s@,
        JsonValue::Object(fields) => {
            let c = field_pos(fields@, "content"@);
            let t = field_pos(fields@, "text"@);
            if 0 <= c < fields@.len() {
                content_text(fields@[c].1)
            } else if 0 <= t < fields@.len() {
                match fields@[t].1 {
                    JsonValue::String(s) => s@,
                    _ => Seq::empty(),
                }
            } else {
                Seq::empty()
            }
        },
        JsonValue::Array(items) => plain_join(items@, items@.len()),
        _ => Seq::empty(),
    }
}

/// Plain texts of the first `n` of `items`, joined with single spaces.
pub open spec fn plain_join(items: Seq<JsonValue>, n: nat) -> Seq<char>
    decreases items, n,
{
    if n == 0 || n > items.len() {
        Seq::empty()
    } else if n == 1 {
        plain_text(items[0])
    } else {
        plain_join(items, (n - 1) as nat) + seq![' '] + plain_text(items[n - 1])
    }
}

/// Text of an ADF `content` array: the texts of its nodes, concatenated;
/// empty when it is not an array.
pub open spec fn content_text(c: JsonValue) -> Seq<char>
    decreases c, 0nat,
{
    match c {
        JsonValue::Array(items) => content_concat(items@, items@.len()),
        _ => Seq::empty(),
    }
}

/// Texts of the first `n` nodes of `items`, concatenated.
pub open spec fn content_concat(items: Seq<JsonValue>, n: nat) -> Seq<char>
    decreases items, n,
{
    if n == 0 || n > items.len() {
        Seq::empty()
    } else {
        content_concat(items, (n - 1) as nat) + node_text(items[n - 1])
    }
}

/// Text of one ADF node: its `text` when that is a string, else the text of
/// its `content`, else empty.
pub open spec fn node_text(node: JsonValue) -> Seq<char>
    decreases node, 0nat,
{
    match node {
        JsonValue::Object(fields) => {
            let t = field_pos(fields@, "text"@);
            let c = field_pos(fields@, "content"@);
            if 0 <= t < fields@.len() && fields@[t].1 is String {
                match fields@[t].1 {
                    JsonValue::String(s) => s@,
                    _ => Seq::empty(),
                }
            } else if 0 <= c < fields@.len() {
                content_text(fields@[c].1)
            } else {
                Seq::empty()
            }
        },
        _ => Seq::empty(),
    }
}

/// Index of the first member named `key`.
pub fn find_field(fields: &Vec<(String, JsonValue)>, key: &str) -> (r: Option<usize>)
    ensures
        match r {
            Some(i) => i == field_pos(fields@, key@) && i < fields.len(),
            None => field_pos(fields@, key@) == -1,
        },
{
    let mut i: usize = 0;
    while i < fields.len()
        invariant
            i <= fields.len(),
            field_pos(fields@, key@) == field_pos_from(fields@, key@, i as int),
        decreases fields.len() - i,
    {
        if str_eq(fields[i].0.as_str(), key) {
            return Some(i);
        }
        i = i + 1;
    }
    None
}

/// Plain text of a Jira description value (string or ADF document).
pub fn extract_plain_text(value: &JsonValue) -> (s: String)
    ensures
        s@ == plain_text(*value),
    decreases value, 0nat,
{
    match value {
        JsonValue::String(s) => s.clone(),
        JsonValue::Object(fields) => {
            let c = find_field(fields, "content");
            match c {
                Some(ci) => extract_text_from_content(&fields[ci].1),
                None => {
                    let t = find_field(fields, "text");
                    match t {
                        Some(ti) => match &fields[ti].1 {
                            JsonValue::String(s) => s.clone(),
                            _ => String::new(),
                        },
                        None => String::new(),
                    }
                },
            }
        },
        JsonValue::Array(items) => {
            let mut r = String::new();
            let mut i: usize = 0;
            while i < items.len()
                invariant
                    i <= items.len(),
                    r@ == plain_join(items@, i as nat),
                    *value == JsonValue::Array(*items),
                decreases items.len() - i,
            {
                proof {
                    assert(decreases_to!(*value => (*value)->Array_0));
                    assert((*value)->Array_0 == *items);
                    assert(decreases_to!(*items => items@));
                    assert(decreases_to!(items@ => items@[i as int]));
                    assert(decreases_to!(*value => items@[i as int]));
                }
                let part = extract_plain_text(&items[i]);
                if i > 0 {
                    push_char(&mut r, ' ');
                }
                push_str(&mut r, part.as_str());
                i = i + 1;
            }
            r
        },
        _ => String::new(),
    }
}

/// Text of an ADF `content` value.
pub fn extract_text_from_content(content: &JsonValue) -> (s: String)
    ensures
        s@ == content_text(*content),
    decreases content, 0nat,
{
    match content {
        JsonValue::Array(items) => {
            let mut r = String::new();
            let mut i: usize = 0;
            while i < items.len()
                invariant
                    i <= items.len(),
                    r@ == content_concat(items@, i as nat),
                    *content == JsonValue::Array(*items),
                decreases items.len() - i,
            {
                proof {
                    assert(decreases_to!(*content => (*content)->Array_0));
                    assert((*content)->Array_0 == *items);
                    assert(decreases_to!(*items => items@));
                    assert(decreases_to!(items@ => items@[i as int]));
                    assert(decreases_to!(*content => items@[i as int]));
                }
                let part = node_text_of(&items[i]);
                push_str(&mut r, part.as_str());
                i = i + 1;
            }
            r
        },
        _ => String::new(),
    }
}

fn node_text_of(node: &JsonValue) -> (s: String)
    ensures
        s@ == node_text(*node),
    decreases node, 0nat,
{
    match node {
        JsonValue::Object(fields) => {
            let t = find_field(fields, "text");
            let text_str = match t {
                Some(ti) => match &fields[ti].1 {
                    JsonValue::String(s) => Some(s.clone()),
                    _ => None,
                },
                None => None,
            };
            match text_str {
                Some(s) => s,
                None => match find_field(fields, "content") {
                    Some(ci) => extract_text_from_content(&fields[ci].1),
                    None => String::new(),
                },
            }
        },
        _ => String::new(),
    }
}

/// The string member `key` of an object (`get(key).and_then(as_str)`).
pub open spec fn str_member(v: JsonValue, key: Seq<char>) -> Option<Seq<char>> {
    match get_field(v, key) {
        Some(JsonValue::String(s)) => Some(s@),
        _ => None,
    }
}

/// The unsigned integer member `key` of an object
/// (`get(key).and_then(as_u64)`): a number whose text is a `u64`.
pub open spec fn u64_member(v: JsonValue, key: Seq<char>) -> Option<u64> {
    match get_field(v, key) {
        Some(JsonValue::Number(t)) => parse_u64_text(t@),
        _ => None,
    }
}

/// The string member `key` of an object, if it is one.
pub fn get_str(v: &JsonValue, key: &str) -> (r: Option<String>)
    ensures
        match r {
            Some(s) => str_member(*v, key@) == Some(s@),
            None => str_member(*v, key@) is None,
        },
{
    match v {
        JsonValue::Object(fields) => match find_field(fields, key) {
            Some(i) => match &fields[i].1 {
                JsonValue::String(s) => Some(s.clone()),
                _ => None,
            },
            None => None,
        },
        _ => None,
    }
}

/// The unsigned integer member `key` of an object, if it is one.
pub fn get_u64(v: &JsonValue, key: &str) -> (r: Option<u64>)
    ensures
        r == u64_member(*v, key@),
{
    match v {
        JsonValue::Object(fields) => match find_field(fields, key) {
            Some(i) => match &fields[i].1 {
                JsonValue::Number(t) => parse_u64(t.as_str()),
                _ => None,
            },
            None => None,
        },
        _ => None,
    }
}

/// `serde_json::Value`, opaque to the verifier.
#[verifier::external_type_specification]
#[verifier::external_body]
pub struct ExSerdeJsonValue(serde_json::Value);

/// The `serde_json::Value` a JSON value converts to, member for member.
pub uninterp spec fn serde_value_of(v: JsonValue) -> serde_json::Value;

/// Convert a JSON value to a `serde_json::Value` one for one (null, bool,
/// string, array and object to the same kind; a number by
/// `serde_json::Number`'s parser, null when it cannot read the text),
/// named [`serde_value_of`].
#[verifier::external_body]
fn to_serde_value(v: &JsonValue) -> (r: serde_json::Value)
    ensures
        r == serde_value_of(*v),
{
    match v {
        JsonValue::Null => serde_json::Value::Null,
        JsonValue::Bool(b) => serde_json::Value::Bool(*b),
        JsonValue::Number(n) => n.parse().map_or(serde_json::Value::Null, serde_json::Value::Number),
        JsonValue::String(t) => serde_json::Value::String(t.clone()),
        JsonValue::Array(a) => serde_json::Value::Array(a.iter().map(to_serde_value).collect()),
        JsonValue::Object(m) => serde_json::Value::Object(
            m.iter().map(|(k, x)| (k.clone(), to_serde_value(x))).collect(),
        ),
    }
}

/// Compact JSON text of a `serde_json::Value` (its `Display`).
pub uninterp spec fn serde_json_text(v: serde_json::Value) -> Seq<char>;

/// Serialize a `serde_json::Value` compactly (`Value::to_string`), named
/// [`serde_json_text`].
#[verifier::external_body]
fn serde_text(v: &serde_json::Value) -> (s: String)
    ensures
        s@ == serde_json_text(*v),
{
    v.to_string()
}

/// Compact JSON text of a JSON value, as `serde_json` writes it.
pub open spec fn json_text(v: JsonValue) -> Seq<char> {
    serde_json_text(serde_value_of(v))
}

/// Serialize a JSON value with `serde_json` (see [`json_text`]).
pub fn to_json_text(v: &JsonValue) -> (s: String)
    ensures
        s@ == json_text(*v),
{
    let sv = to_serde_value(v);
    serde_text(&sv)
}

} // verus!
