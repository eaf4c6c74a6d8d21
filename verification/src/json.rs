//! Decoding the JSON prediction payload.
//!
//! The payload is an object holding a `predictions` array of records
//! with `t`, `v` and `type` string fields. The JSON tree itself is
//! parsed and walked by serde_json behind the trusted items below.
//! Each call's result is a function of its arguments alone, so it
//! carries a name, and the decoder's contract is exact over those
//! names: a payload decodes if and only if the tree parses, holds a
//! `predictions` array, and every element carries the three string
//! fields; the decoded records are those strings, in source order.
//! What the raw strings denote is the verified record parser's
//! business; see `Predictions::tide_points`.

use crate::errors::ParseError;
use crate::tides::{JsonTide, Predictions};
use vstd::prelude::*;

verus! {

#[verifier::external_type_specification]
#[verifier::external_body]
pub struct ExValue(serde_json::Value);

/// What serde_json::from_str::<Value> returns: the parsed tree exactly
/// when the text is valid JSON; a function of the text alone.
pub uninterp spec fn json_tree_of(s: Seq<char>) -> Option<serde_json::Value>;

/// What serde_json::Value::get returns for a string key: the member of
/// an object under that key, or nothing when the value is no object or
/// has no such member; a function of value and key alone.
pub uninterp spec fn json_member_of(v: serde_json::Value, key: Seq<char>) -> Option<
    serde_json::Value,
>;

/// What serde_json::Value::as_array returns: the element sequence of
/// an array value, or nothing otherwise; a function of the value alone.
pub uninterp spec fn json_elements_of(v: serde_json::Value) -> Option<Seq<serde_json::Value>>;

/// What serde_json::Value::as_str returns: the text of a string value,
/// or nothing otherwise; a function of the value alone.
pub uninterp spec fn json_text_of(v: serde_json::Value) -> Option<Seq<char>>;

/// Relies on serde_json::from_str::<Value>: parses the text exactly
/// when it is valid JSON.
#[verifier::external_body]
fn json_parse(s: &str) -> (r: Option<serde_json::Value>)
    ensures
        r == json_tree_of(s@),
{
    serde_json::from_str(s).ok()
}

/// Relies on serde_json::Value::get with a string key.
#[verifier::external_body]
fn json_member<'a>(v: &'a serde_json::Value, key: &str) -> (r: Option<&'a serde_json::Value>)
    ensures
        match r {
            Some(m) => json_member_of(*v, key@) == Some(*m),
            None => json_member_of(*v, key@) is None,
        },
{
    v.get(key)
}

/// Relies on serde_json::Value::as_array, plus a clone of the
/// elements.
#[verifier::external_body]
fn json_elements(v: &serde_json::Value) -> (r: Option<Vec<serde_json::Value>>)
    ensures
        match r {
            Some(es) => json_elements_of(*v) == Some(es@),
            None => json_elements_of(*v) is None,
        },
{
    v.as_array().cloned()
}

/// Relies on serde_json::Value::as_str, plus to_owned.
#[verifier::external_body]
fn json_text(v: &serde_json::Value) -> (r: Option<String>)
    ensures
        match r {
            Some(t) => json_text_of(*v) == Some(t@),
            None => json_text_of(*v) is None,
        },
{
    v.as_str().map(str::to_owned)
}

/// The elements of a payload's `predictions` array, if the text is
/// JSON and carries one.
pub open spec fn payload_elements(s: Seq<char>) -> Option<Seq<serde_json::Value>> {
    match json_tree_of(s) {
        None => None,
        Some(root) => match json_member_of(root, "predictions"@) {
            None => None,
            Some(list) => json_elements_of(list),
        },
    }
}

/// The three raw record strings of one array element, if it has
/// string `t`, `v` and `type` members, checked in that order.
pub open spec fn element_fields(e: serde_json::Value) -> Option<(Seq<char>, Seq<char>, Seq<char>)> {
    match json_member_of(e, "t"@) {
        None => None,
        Some(tv) => match json_text_of(tv) {
            None => None,
            Some(t) => match json_member_of(e, "v"@) {
                None => None,
                Some(vv) => match json_text_of(vv) {
                    None => None,
                    Some(v) => match json_member_of(e, "type"@) {
                        None => None,
                        Some(kv) => match json_text_of(kv) {
                            None => None,
                            Some(k) => Some((t, v, k)),
                        },
                    },
                },
            },
        },
    }
}

/// Decode a JSON prediction payload into its raw records. Succeeds
/// exactly when the text parses to a tree with a `predictions` array
/// whose every element carries string `t`, `v` and `type` fields, and
/// then yields those strings, one record per element, in source
/// order; any structural mismatch rejects the payload as a malformed
/// record.
pub fn predictions_from_json(s: &str) -> (r: Result<Predictions, ParseError>)
    ensures
        match r {
            Ok(p) => payload_elements(s@) matches Some(es) && p.predictions@.len() == es.len()
                && forall|i: int|
                0 <= i < es.len() ==> element_fields(es[i]) == Some(
                    (
                        (#[trigger] p.predictions@[i]).t@,
                        p.predictions@[i].v@,
                        p.predictions@[i].tide@,
                    ),
                ),
            Err(e) => {
                &&& e == ParseError::MalformedRecord
                &&& match payload_elements(s@) {
                    None => true,
                    Some(es) => exists|i: int|
                        0 <= i < es.len() && (#[trigger] element_fields(es[i])) is None,
                }
            },
        },
{
    let root = match json_parse(s) {
        Some(v) => v,
        None => {
            return Err(ParseError::MalformedRecord);
        },
    };
    let list = match json_member(&root, "predictions") {
        Some(v) => v,
        None => {
            return Err(ParseError::MalformedRecord);
        },
    };
    let elems = match json_elements(list) {
        Some(v) => v,
        None => {
            return Err(ParseError::MalformedRecord);
        },
    };
    let ghost es = elems@;
    proof {
        assert(payload_elements(s@) == Some(es));
    }
    let mut records: Vec<JsonTide> = Vec::new();
    let n = elems.len();
    let mut i: usize = 0;
    while i < n
        invariant
            0 <= i <= n,
            n == es.len(),
            es == elems@,
            payload_elements(s@) == Some(es),
            records@.len() == i,
            forall|j: int|
                0 <= j < i ==> element_fields(es[j]) == Some(
                    ((#[trigger] records@[j]).t@, records@[j].v@, records@[j].tide@),
                ),
        decreases n - i,
    {
        let e = &elems[i];
        let t = match record_text(e, "t") {
            Some(v) => v,
            None => {
                proof {
                    assert(element_fields(es[i as int]) is None);
                }
                return Err(ParseError::MalformedRecord);
            },
        };
        let v = match record_text(e, "v") {
            Some(v) => v,
            None => {
                proof {
                    assert(element_fields(es[i as int]) is None);
                }
                return Err(ParseError::MalformedRecord);
            },
        };
        let tide = match record_text(e, "type") {
            Some(v) => v,
            None => {
                proof {
                    assert(element_fields(es[i as int]) is None);
                }
                return Err(ParseError::MalformedRecord);
            },
        };
        records.push(JsonTide { t, v, tide });
        i = i + 1;
    }
    Ok(Predictions { predictions: records })
}

/// The text of one string member of a record element.
fn record_text(e: &serde_json::Value, key: &str) -> (r: Option<String>)
    ensures
        match r {
            Some(t) => json_member_of(*e, key@) matches Some(m) && json_text_of(m) == Some(t@),
            None => json_member_of(*e, key@) is None || (json_member_of(*e, key@) matches Some(m)
                && json_text_of(m) is None),
        },
{
    match json_member(e, key) {
        Some(m) => json_text(m),
        None => None,
    }
}

} // verus!
