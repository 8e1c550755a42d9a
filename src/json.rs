//! JSON documents as plain values, read through serde_json.
use vstd::prelude::*;

verus! {

/// A JSON value. A number keeps what it reads as a signed and as an
/// unsigned 64-bit integer, where it is one; an object keeps its members
/// with unique keys, in key order.
#[derive(Debug)]
pub enum Json {
    Null,
    Bool(bool),
    Number(Option<i64>, Option<u64>),
    Str(String),
    Array(Vec<Json>),
    Object(Vec<(String, Json)>),
}

#[verifier::external_type_specification]
#[verifier::external_body]
pub struct ExJsonValue(serde_json::Value);

pub uninterp spec fn json_accepts(s: Seq<char>) -> bool;

pub uninterp spec fn json_of(s: Seq<char>) -> Json;

/// Relies on serde_json::from_str: whether the text is one JSON value, and
/// which, depends on the text alone; the error is rendered as its message.
#[verifier::external_body]
pub(crate) fn parse_json(text: &str) -> (r: Result<Json, String>)
    ensures
        r is Ok <==> json_accepts(text@),
        r is Ok ==> r->Ok_0 == json_of(text@),
{
    match serde_json::from_str::<serde_json::Value>(text) {
        Ok(v) => Ok(json_from_value(v)),
        Err(e) => Err(e.to_string()),
    }
}

/// Relies on serde_json::Value's variants, on Number::as_i64 and
/// Number::as_u64, and on Map's iteration: the value, converted one for one.
#[verifier::external_body]
fn json_from_value(v: serde_json::Value) -> Json {
    match v {
        serde_json::Value::Null => Json::Null,
        serde_json::Value::Bool(b) => Json::Bool(b),
        serde_json::Value::Number(n) => Json::Number(n.as_i64(), n.as_u64()),
        serde_json::Value::String(s) => Json::Str(s),
        serde_json::Value::Array(a) => Json::Array(a.into_iter().map(json_from_value).collect()),
        serde_json::Value::Object(m) => Json::Object(
            m.into_iter().map(|(k, x)| (k, json_from_value(x))).collect(),
        ),
    }
}

/// The value of the first member named `key`.
pub open spec fn member(ms: Seq<(String, Json)>, key: Seq<char>) -> Option<Json>
    decreases ms.len(),
{
    if ms.len() == 0 {
        None
    } else if ms[0].0@ == key {
        Some(ms[0].1)
    } else {
        member(ms.drop_first(), key)
    }
}

/// The member named `key` of an object; nothing for other values.
pub open spec fn field(j: Json, key: Seq<char>) -> Option<Json> {
    match j {
        Json::Object(ms) => member(ms@, key),
        _ => None,
    }
}

/// The member named `key` of `j`, where `j` is an object that has one.
pub fn json_field<'a>(j: &'a Json, key: &str) -> (r: Option<&'a Json>)
    ensures
        match r {
            Some(x) => field(*j, key@) == Some(*x),
            None => field(*j, key@) is None,
        },
{
    match j {
        Json::Object(ms) => {
            assert(*j == Json::Object(*ms));
            assert(field(*j, key@) == member(ms@, key@));
            let n = ms.len();
            let mut i: usize = 0;
            assert(ms@.subrange(0, n as int) =~= ms@);
            while i < n
                invariant
                    n == ms@.len(),
                    i <= n,
                    field(*j, key@) == member(ms@, key@),
                    member(ms@, key@) == member(ms@.subrange(i as int, n as int), key@),
                decreases n - i,
            {
                assert(ms@.subrange(i as int, n as int).drop_first() =~= ms@.subrange(
                    i + 1,
                    n as int,
                ));
                assert(ms@.subrange(i as int, n as int)[0] == ms@[i as int]);
                let entry = &ms[i];
                assert(*entry == ms@[i as int]);
                if crate::text::text_equals(entry.0.as_str(), key) {
                    assert(member(ms@, key@) == Some(entry.1));
                    return Some(&entry.1);
                }
                i += 1;
            }
            None
        },
        _ => None,
    }
}

} // verus!
