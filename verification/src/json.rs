//! The JSON values of Herdr's replies, as the library reads them, and the
//! lookups the parsers make in them.
use vstd::prelude::*;
use crate::agent::str_eq;

verus! {

/// A JSON number, by what the library reads of it: its value when it is an
/// unsigned integer, and the bits of its value as a finite `f32`, when it has
/// one.
#[derive(Debug)]
pub struct JsonNumber {
    pub unsigned: Option<u64>,
    pub f32_bits: Option<u32>,
}

/// A JSON value. An object keeps its members in order, each key once.
#[derive(Debug)]
pub enum Json {
    Null,
    Bool(bool),
    Number(JsonNumber),
    String(String),
    Array(Vec<Json>),
    Object(Vec<(String, Json)>),
}

/// The value of the first member named `key`.
pub open spec fn member(fields: Seq<(String, Json)>, key: Seq<char>) -> Option<Json>
    decreases fields.len(),
{
    if fields.len() == 0 {
        None
    } else if fields[0].0@ == key {
        Some(fields[0].1)
    } else {
        member(fields.drop_first(), key)
    }
}

/// The member `key` of an object; nothing for another value.
pub open spec fn field(j: Json, key: Seq<char>) -> Option<Json> {
    match j {
        Json::Object(fields) => member(fields@, key),
        _ => None,
    }
}

/// The member `key` of a value that may be missing.
pub open spec fn field_of(j: Option<Json>, key: Seq<char>) -> Option<Json> {
    match j {
        Some(v) => field(v, key),
        None => None,
    }
}

/// A string's text (`Value::as_str`).
pub open spec fn text(j: Option<Json>) -> Option<Seq<char>> {
    match j {
        Some(Json::String(s)) => Some(s@),
        _ => None,
    }
}

/// A boolean's value (`Value::as_bool`).
pub open spec fn flag(j: Option<Json>) -> Option<bool> {
    match j {
        Some(Json::Bool(b)) => Some(b),
        _ => None,
    }
}

/// An unsigned integer's value (`Value::as_u64`).
pub open spec fn unsigned(j: Option<Json>) -> Option<u64> {
    match j {
        Some(Json::Number(n)) => n.unsigned,
        _ => None,
    }
}

/// An array's items (`Value::as_array`).
pub open spec fn items(j: Option<Json>) -> Option<Seq<Json>> {
    match j {
        Some(Json::Array(v)) => Some(v@),
        _ => None,
    }
}

/// The text of the member `key`.
pub open spec fn text_field(j: Json, key: Seq<char>) -> Option<Seq<char>> {
    text(field(j, key))
}

/// Looks up the member `key` of an object.
pub fn get<'a>(j: &'a Json, key: &str) -> (r: Option<&'a Json>)
    ensures
        match field(*j, key@) {
            Some(v) => r matches Some(x) && *x == v,
            None => r is None,
        },
{
    match j {
        Json::Object(fields) => {
            let mut i: usize = 0;
            assert(fields@.skip(0) =~= fields@);
            while i < fields.len()
                invariant
                    i <= fields.len(),
                    field(*j, key@) == member(fields@, key@),
                    member(fields@, key@) == member(fields@.skip(i as int), key@),
                decreases fields.len() - i,
            {
                let ghost rest = fields@.skip(i as int);
                assert(rest[0] == fields@[i as int]);
                if str_eq(fields[i].0.as_str(), key) {
                    assert(member(rest, key@) == Some(rest[0].1));
                    return Some(&fields[i].1);
                }
                assert(rest.drop_first() =~= fields@.skip(i + 1));
                i = i + 1;
            }
            None
        },
        _ => None,
    }
}

/// Looks up the member `key` of a value that may be missing.
pub fn get_of<'a>(j: Option<&'a Json>, key: &str) -> (r: Option<&'a Json>)
    ensures
        match field_of(match j { Some(x) => Some(*x), None => None }, key@) {
            Some(v) => r matches Some(x) && *x == v,
            None => r is None,
        },
{
    match j {
        Some(v) => get(v, key),
        None => None,
    }
}

/// The text of a string value, copied.
pub fn as_text(j: Option<&Json>) -> (r: Option<String>)
    ensures
        match text(match j { Some(x) => Some(*x), None => None }) {
            Some(t) => r matches Some(s) && s@ == t,
            None => r is None,
        },
{
    match j {
        Some(Json::String(s)) => Some(s.clone()),
        _ => None,
    }
}

/// The value of a boolean.
pub fn as_flag(j: Option<&Json>) -> (r: Option<bool>)
    ensures
        r == flag(match j { Some(x) => Some(*x), None => None }),
{
    match j {
        Some(Json::Bool(b)) => Some(*b),
        _ => None,
    }
}

/// The value of an unsigned integer.
pub fn as_unsigned(j: Option<&Json>) -> (r: Option<u64>)
    ensures
        r == unsigned(match j { Some(x) => Some(*x), None => None }),
{
    match j {
        Some(Json::Number(n)) => n.unsigned,
        _ => None,
    }
}

/// The items of an array.
pub fn as_items(j: Option<&Json>) -> (r: Option<&Vec<Json>>)
    ensures
        match items(match j { Some(x) => Some(*x), None => None }) {
            Some(v) => r matches Some(x) && x@ == v,
            None => r is None,
        },
{
    match j {
        Some(Json::Array(v)) => Some(v),
        _ => None,
    }
}

/// The text of the member `key`, copied.
pub fn text_member(j: &Json, key: &str) -> (r: Option<String>)
    ensures
        match text_field(*j, key@) {
            Some(t) => r matches Some(s) && s@ == t,
            None => r is None,
        },
{
    as_text(get(j, key))
}

} // verus!
