use crate::error::RqliteError;
use crate::num::dec_int;
use crate::value::{JsonVal, JsonValue};
use serde_json::Value as SjValue;
use vstd::prelude::*;

verus! {

/// serde_json's value tree, declared so that the wrappers below can
/// hand it from one call to the next. The library never looks inside a
/// value of this type: everything it knows about one is `sj_model`.
#[verifier::external_type_specification]
#[verifier::external_body]
pub struct ExSerdeValue(serde_json::Value);

/// What a serde_json value tree holds, read as the library's JSON
/// model: strings as their characters, numbers as the text serde_json
/// prints for them, object fields in serde_json's (key-sorted) order.
pub uninterp spec fn sj_model(sv: serde_json::Value) -> JsonVal;

/// The JSON text that serde_json prints for a tree with the given
/// model; determined by the model alone.
pub uninterp spec fn json_text_of(j: JsonVal) -> Seq<char>;

/// The model of the tree that serde_json parses from the given bytes,
/// or nothing when serde_json refuses them; determined by the bytes
/// alone.
pub uninterp spec fn json_value_of(b: Seq<u8>) -> Option<JsonVal>;

/// Strict lexicographic order on strings, by character value.
pub open spec fn chars_lt(a: Seq<char>, b: Seq<char>) -> bool
    decreases a.len(),
{
    if b.len() == 0 {
        false
    } else if a.len() == 0 {
        true
    } else if (a[0] as u32) < (b[0] as u32) {
        true
    } else if a[0] == b[0] {
        chars_lt(a.subrange(1, a.len() as int), b.subrange(1, b.len() as int))
    } else {
        false
    }
}

/// The values whose encoding is fully pinned down: every number is the
/// canonical decimal literal of an `i64`, and every object's keys are
/// strictly ascending, as serde_json's maps keep them. Values built by
/// the library itself are of this shape.
pub open spec fn json_wf(j: JsonVal) -> bool
    decreases j,
{
    match j {
        JsonVal::Null => true,
        JsonVal::Bool(_) => true,
        JsonVal::Num(s) => exists|i: i64| s == dec_int(i as int),
        JsonVal::Str(_) => true,
        JsonVal::Arr(items) => forall|i: int| 0 <= i < items.len() ==> json_wf(#[trigger] items[i]),
        JsonVal::Obj(ps) => {
            &&& forall|i: int| 0 <= i < ps.len() ==> json_wf(#[trigger] ps[i].1)
            &&& forall|i: int| 0 <= i < ps.len() - 1 ==> chars_lt(#[trigger] ps[i].0, ps[i + 1].0)
        },
    }
}

/// Relies on serde_json's `Number` parsing and `JsonValue` constructors:
/// rebuilds the library value as a serde_json tree, one variant at a
/// time. A number whose literal is not a valid JSON number is the one
/// rejection; a canonical integer literal always parses, and integers
/// and strings are reprinted by serde_json exactly as they came.
#[verifier::external_body]
fn to_serde(v: &JsonValue) -> (r: Result<serde_json::Value, RqliteError>)
    ensures
        r matches Err(e) ==> e is DataSer,
        json_wf(v@) ==> r is Ok,
        json_wf(v@) ==> (r matches Ok(sv) ==> sj_model(sv) == v@),
{
    Ok(match v {
        JsonValue::Null => SjValue::Null,
        JsonValue::Bool(b) => SjValue::Bool(*b),
        JsonValue::Number(s) => match serde_json::from_str::<serde_json::Number>(s) {
            Ok(n) => SjValue::Number(n),
            Err(e) => return Err(RqliteError::DataSer(e.to_string())),
        },
        JsonValue::Text(s) => SjValue::String(s.clone()),
        JsonValue::Array(xs) => SjValue::Array(xs.iter().map(to_serde).collect::<Result<_, _>>()?),
        JsonValue::Object(ps) => SjValue::Object(
            ps.iter().map(|p| Ok((p.0.clone(), to_serde(&p.1)?))).collect::<Result<_, _>>()?,
        ),
    })
}

/// Relies on serde_json::to_string: prints the tree's JSON text, which
/// the tree determines; for a value tree (whose map keys are strings)
/// printing never fails.
#[verifier::external_body]
fn serde_to_string(sv: &serde_json::Value) -> (r: Result<String, RqliteError>)
    ensures
        r is Ok,
        r matches Ok(s) ==> s@ == json_text_of(sj_model(*sv)),
{
    match serde_json::to_string(sv) {
        Ok(s) => Ok(s),
        Err(e) => Err(RqliteError::DataSer(e.to_string())),
    }
}

/// Relies on serde_json::from_slice: parses JSON text into a value
/// tree, succeeding exactly on the texts serde_json accepts, with the
/// result determined by the bytes alone.
#[verifier::external_body]
fn serde_from_slice(b: &[u8]) -> (r: Result<serde_json::Value, RqliteError>)
    ensures
        r is Ok <==> json_value_of(b@) is Some,
        r matches Ok(sv) ==> json_value_of(b@) == Some(sj_model(sv)),
        r matches Err(e) ==> e is DataSer,
{
    match serde_json::from_slice::<serde_json::Value>(b) {
        Ok(sv) => Ok(sv),
        Err(e) => Err(RqliteError::DataSer(e.to_string())),
    }
}

/// Relies on serde_json's accessors: reads a serde_json tree back as a
/// library value, one variant at a time; a number becomes the text of
/// its printed literal.
#[verifier::external_body]
fn from_serde(sv: &serde_json::Value) -> (r: JsonValue)
    ensures
        r@ == sj_model(*sv),
{
    match sv {
        serde_json::Value::Null => JsonValue::Null,
        serde_json::Value::Bool(b) => JsonValue::Bool(*b),
        serde_json::Value::Number(n) => JsonValue::Number(n.to_string()),
        serde_json::Value::String(s) => JsonValue::Text(s.clone()),
        serde_json::Value::Array(xs) => JsonValue::Array(xs.iter().map(from_serde).collect()),
        serde_json::Value::Object(m) => JsonValue::Object(
            m.iter().map(|p| (p.0.clone(), from_serde(p.1))).collect(),
        ),
    }
}

/// Encode a value as JSON text.
///
/// Succeeds on every well-formed value, printing exactly its text; a
/// number whose literal is not valid JSON is a serialization error.
pub fn json_encode(v: &JsonValue) -> (r: Result<String, RqliteError>)
    ensures
        r matches Err(e) ==> e is DataSer,
        json_wf(v@) ==> r is Ok,
        json_wf(v@) ==> (r matches Ok(s) ==> s@ == json_text_of(v@)),
{
    match to_serde(v) {
        Ok(sv) => serde_to_string(&sv),
        Err(e) => Err(e),
    }
}

/// Decode JSON text into a value.
///
/// Succeeds exactly when the parser accepts the bytes, yielding the
/// parsed tree; anything else is a serialization error carrying the
/// parser's message.
pub fn json_decode(b: &[u8]) -> (r: Result<JsonValue, RqliteError>)
    ensures
        r is Ok <==> json_value_of(b@) is Some,
        r matches Ok(v) ==> json_value_of(b@) == Some(v@),
        r matches Err(e) ==> e is DataSer,
{
    match serde_from_slice(b) {
        Ok(sv) => Ok(from_serde(&sv)),
        Err(e) => Err(e),
    }
}

} // verus!
