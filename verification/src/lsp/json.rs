//! A JSON value as the language-server logic reads it.
use vstd::prelude::*;

use crate::text::{chars_eq, chars_of};

verus! {

/// A JSON value. Numbers hold what `as_i64` and `as_u64` read of them; an
/// object holds its members in order, each key once.
pub enum JsonValue {
    Null,
    Bool(bool),
    Number { as_i64: Option<i64>, as_u64: Option<u64> },
    String(String),
    Array(Vec<JsonValue>),
    Object(Vec<(String, JsonValue)>),
}

/// The member of an object with the given key (`Value::get` with a string
/// key): none for other values or a missing key.
pub open spec fn get(v: JsonValue, key: Seq<char>) -> Option<JsonValue> {
    match v {
        JsonValue::Object(members) => member(members@, key),
        _ => None,
    }
}

/// The first member with the given key.
pub open spec fn member(members: Seq<(String, JsonValue)>, key: Seq<char>) -> Option<JsonValue>
    decreases members.len(),
{
    if members.len() == 0 {
        None
    } else if members[0].0@ == key {
        Some(members[0].1)
    } else {
        member(members.drop_first(), key)
    }
}

/// The position of the first member with the given key.
pub fn member_index(members: &Vec<(String, JsonValue)>, key: &str) -> (r: Option<usize>)
    ensures
        r is None <==> member(members@, key@) is None,
        r matches Some(i) ==> i < members@.len() && member(members@, key@) == Some(members@[i as int].1),
{
    let k = chars_of(key);
    let mut i: usize = 0;
    assert(members@.skip(0) =~= members@);
    while i < members.len()
        invariant
            i <= members@.len(),
            k@ == key@,
            member(members@, key@) == member(members@.skip(i as int), key@),
        decreases members@.len() - i,
    {
        assert(members@.skip(i as int).drop_first() =~= members@.skip(i + 1));
        assert(members@.skip(i as int)[0] == members@[i as int]);
        if chars_eq(&chars_of(members[i].0.as_str()), &k) {
            return Some(i);
        }
        i = i + 1;
    }
    assert(members@.skip(i as int).len() == 0);
    None
}

/// `Value::as_str`.
pub open spec fn as_str(v: Option<JsonValue>) -> Option<Seq<char>> {
    match v {
        Some(JsonValue::String(s)) => Some(s@),
        _ => None,
    }
}

/// `Value::as_u64`.
pub open spec fn as_u64(v: Option<JsonValue>) -> Option<u64> {
    match v {
        Some(JsonValue::Number { as_i64, as_u64 }) => as_u64,
        _ => None,
    }
}

/// `Value::as_i64`.
pub open spec fn as_i64(v: Option<JsonValue>) -> Option<i64> {
    match v {
        Some(JsonValue::Number { as_i64, as_u64 }) => as_i64,
        _ => None,
    }
}

/// Whether a value is an object.
pub open spec fn is_object(v: Option<JsonValue>) -> bool {
    v matches Some(JsonValue::Object(_))
}

/// How a message read from a language server relates to a request.
pub enum ResponseKind {
    /// The answer to the request.
    Result(JsonValue),
    /// The request failed; the error object.
    Error(JsonValue),
    /// A message about something else (a notification, another request).
    Other,
}

/// How a message relates to request `id`: an answer has that id, then a
/// `result` (or else an `error`); anything else is some other message.
pub open spec fn classify(msg: JsonValue, id: i64) -> ResponseKind {
    if get(msg, "id"@) is Some && as_i64(get(msg, "id"@)) == Some(id) {
        if get(msg, "result"@) is Some {
            ResponseKind::Result(get(msg, "result"@)->0)
        } else if get(msg, "error"@) is Some {
            ResponseKind::Error(get(msg, "error"@)->0)
        } else {
            ResponseKind::Other
        }
    } else {
        ResponseKind::Other
    }
}

/// How a message read from a language server relates to request `id`.
pub fn classify_response(msg: JsonValue, id: i64) -> (r: ResponseKind)
    ensures
        r == classify(msg, id),
{
    let ghost m0 = msg;
    match msg {
        JsonValue::Object(mut members) => {
            let ours = match member_index(&members, "id") {
                Some(i) => match &members[i].1 {
                    JsonValue::Number { as_i64: Some(n), .. } => *n == id,
                    _ => false,
                },
                None => false,
            };
            if !ours {
                return ResponseKind::Other;
            }
            match member_index(&members, "result") {
                Some(i) => ResponseKind::Result(members.remove(i).1),
                None => match member_index(&members, "error") {
                    Some(i) => ResponseKind::Error(members.remove(i).1),
                    None => ResponseKind::Other,
                },
            }
        },
        _ => ResponseKind::Other,
    }
}

} // verus!
