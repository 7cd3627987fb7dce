//! The JSON shape that the wire protocol uses, and the bridge to a real JSON
//! printer and parser.
//!
//! Messages travel as JSON objects. This module models a JSON document as the
//! `Json` type: objects keep their field order and numbers are integers, which
//! is all the protocol ever puts on the wire. Printing and parsing of text is
//! done by `serde_json` behind the two trusted functions at the bottom; every
//! rule about what a message means is stated and verified over `Json` itself.

use vstd::prelude::*;
use vstd::string::StringExecFns;

verus! {

broadcast use
    vstd::std_specs::vec::axiom_vec_decreases_to_view,
    vstd::seq::axiom_seq_index_decreases;

/// A JSON value as this protocol uses it: object fields keep their order, and
/// numbers are 64-bit integers (the wire format never carries fractions).
pub enum Json {
    Null,
    Bool(bool),
    Int(i64),
    Str(String),
    Arr(Vec<Json>),
    Obj(Vec<(String, Json)>),
}

/// Mathematical model of a `Json` value.
#[verifier::ext_equal]
pub enum JsonV {
    Null,
    Bool(bool),
    Int(int),
    Str(Seq<char>),
    Arr(Seq<JsonV>),
    Obj(Seq<(Seq<char>, JsonV)>),
}

/// The model of a sequence of JSON array items.
pub open spec fn arr_v(items: Seq<Json>) -> Seq<JsonV>
    decreases items,
{
    Seq::new(
        items.len(),
        |i: int| if 0 <= i < items.len() { jv(items[i]) } else { JsonV::Null },
    )
}

/// The model of a sequence of JSON object fields.
pub open spec fn obj_v(fields: Seq<(String, Json)>) -> Seq<(Seq<char>, JsonV)>
    decreases fields,
{
    Seq::new(
        fields.len(),
        |i: int|
            if 0 <= i < fields.len() {
                (fields[i].0@, jv(fields[i].1))
            } else {
                (Seq::empty(), JsonV::Null)
            },
    )
}

/// The model of a `Json` value, constructor by constructor.
pub open spec fn jv(j: Json) -> JsonV
    decreases j,
{
    match j {
        Json::Null => JsonV::Null,
        Json::Bool(b) => JsonV::Bool(b),
        Json::Int(i) => JsonV::Int(i as int),
        Json::Str(s) => JsonV::Str(s@),
        Json::Arr(items) => JsonV::Arr(arr_v(items@)),
        Json::Obj(fields) => JsonV::Obj(obj_v(fields@)),
    }
}

impl View for Json {
    type V = JsonV;

    open spec fn view(&self) -> JsonV {
        jv(*self)
    }
}

/// The value of the first field named `key`, if any: later duplicates of a
/// key never shadow an earlier one.
pub open spec fn jget(fields: Seq<(Seq<char>, JsonV)>, key: Seq<char>) -> Option<JsonV>
    decreases fields.len(),
{
    if fields.len() == 0 {
        None
    } else if fields[0].0 == key {
        Some(fields[0].1)
    } else {
        jget(fields.drop_first(), key)
    }
}

/// Every object in the document names each of its fields once, at every depth.
pub open spec fn distinct_keys(j: JsonV) -> bool
    decreases j,
{
    match j {
        JsonV::Arr(items) => forall|i: int|
            0 <= i < items.len() ==> distinct_keys(#[trigger] items[i]),
        JsonV::Obj(fields) => {
            &&& forall|i: int, k: int|
                0 <= i < k < fields.len() ==> (#[trigger] fields[i].0) != (#[trigger] fields[k].0)
            &&& forall|i: int| 0 <= i < fields.len() ==> distinct_keys((#[trigger] fields[i]).1)
        },
        _ => true,
    }
}

/// Whether every container of the document sits at most `d` levels deep:
/// scalars cost nothing, and each array or object costs one level.
pub open spec fn depth_at_most(j: JsonV, d: int) -> bool
    decreases j,
{
    match j {
        JsonV::Arr(items) => d >= 1 && forall|i: int|
            0 <= i < items.len() ==> depth_at_most(#[trigger] items[i], d - 1),
        JsonV::Obj(fields) => d >= 1 && forall|i: int|
            0 <= i < fields.len() ==> depth_at_most((#[trigger] fields[i]).1, d - 1),
        _ => true,
    }
}

/// What `serde_json` reads out of a piece of text: `None` where the text is
/// not well-formed JSON. Non-integer numbers come back as `JsonV::Null`; the
/// protocol never sends them.
pub uninterp spec fn json_of(text: Seq<char>) -> Option<JsonV>;

/// Relies on `serde_json::Value`: rebuilds the value as this crate's `Json`,
/// one arm per variant; numbers outside `i64` become `Json::Null`.
#[verifier::external_body]
fn value_to_json(v: &serde_json::Value) -> Json {
    match v {
        serde_json::Value::Null => Json::Null,
        serde_json::Value::Bool(b) => Json::Bool(*b),
        serde_json::Value::Number(n) => match n.as_i64() {
            Some(i) => Json::Int(i),
            None => Json::Null,
        },
        serde_json::Value::String(s) => Json::Str(s.clone()),
        serde_json::Value::Array(a) => Json::Arr(a.iter().map(value_to_json).collect()),
        serde_json::Value::Object(m) => Json::Obj(
            m.iter().map(|(k, x)| (k.clone(), value_to_json(x))).collect(),
        ),
    }
}

/// Relies on `serde_json::Value`: builds the value that corresponds to this
/// crate's `Json`, one arm per variant.
#[verifier::external_body]
fn json_to_value(j: &Json) -> serde_json::Value {
    match j {
        Json::Null => serde_json::Value::Null,
        Json::Bool(b) => serde_json::Value::Bool(*b),
        Json::Int(i) => serde_json::Value::from(*i),
        Json::Str(s) => serde_json::Value::String(s.clone()),
        Json::Arr(a) => serde_json::Value::Array(a.iter().map(json_to_value).collect()),
        Json::Obj(fields) => serde_json::Value::Object(
            fields.iter().map(|(k, x)| (k.clone(), json_to_value(x))).collect(),
        ),
    }
}

#[verifier::external_type_specification]
#[verifier::external_body]
pub struct ExValue(serde_json::Value);

/// Relies on `serde_json::from_str`: what it reads depends on the text alone,
/// and ill-formed text is an error, never a default value.
#[verifier::external_body]
pub fn json_from_text(text: &str) -> (r: Option<Json>)
    ensures
        match r {
            Some(j) => json_of(text@) == Some(j@),
            None => json_of(text@) is None,
        },
{
    match serde_json::from_str::<serde_json::Value>(text) {
        Ok(v) => Some(value_to_json(&v)),
        Err(_) => None,
    }
}

/// Relies on `serde_json::to_string` printing every value as JSON text that
/// `serde_json::from_str` reads back as an equal value. Object fields keep
/// their order on both trips. The parser refuses documents whose containers
/// nest more than 127 levels deep, so the printed text is promised to parse
/// back only for documents below that limit whose keys are distinct.
#[verifier::external_body]
pub fn json_to_text(j: &Json) -> (r: String)
    ensures
        distinct_keys(j@) && depth_at_most(j@, 127) ==> json_of(r@) == Some(j@),
{
    match serde_json::to_string(&json_to_value(j)) {
        Ok(s) => s,
        Err(_) => String::new(),
    }
}

/// Relies on `str::eq`: text equality is equality of the characters.
#[verifier::external_body]
pub fn str_eq(a: &str, b: &str) -> (r: bool)
    ensures
        r == (a@ == b@),
{
    a == b
}

/// The first field named `key` of an object's field list, as `jget` reads it.
pub fn obj_get<'a>(fields: &'a Vec<(String, Json)>, key: &str) -> (r: Option<&'a Json>)
    ensures
        match r {
            Some(v) => jget(obj_v(fields@), key@) == Some(v@),
            None => jget(obj_v(fields@), key@) is None,
        },
{
    let n = fields.len();
    let mut i: usize = 0;
    proof {
        assert(obj_v(fields@).skip(0) =~= obj_v(fields@));
    }
    while i < n
        invariant
            n == fields@.len(),
            0 <= i <= n,
            jget(obj_v(fields@), key@) == jget(obj_v(fields@).skip(i as int), key@),
        decreases n - i,
    {
        if str_eq(fields[i].0.as_str(), key) {
            proof {
                assert(obj_v(fields@).skip(i as int)[0] == obj_v(fields@)[i as int]);
            }
            return Some(&fields[i].1);
        }
        proof {
            assert(obj_v(fields@).skip(i as int).drop_first() =~= obj_v(fields@).skip(
                i as int + 1,
            ));
            assert(obj_v(fields@).skip(i as int)[0] == obj_v(fields@)[i as int]);
        }
        i = i + 1;
    }
    proof {
        assert(obj_v(fields@).skip(n as int) =~= Seq::empty());
    }
    None
}

} // verus!
