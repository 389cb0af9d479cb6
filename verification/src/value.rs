use crate::num::{dec_int, i64_to_dec, lemma_dec_int_round_trip, parse_i64, spec_parse_i64};
use crate::types::str_eq;
use vstd::prelude::*;
use vstd::string::*;

verus! {

/// The mathematical model of a JSON value: the value tree with every
/// string as a sequence of characters. A number is kept as the text of
/// its literal, so that no floating-point rounding enters the model.
pub ghost enum JsonVal {
    Null,
    Bool(bool),
    Num(Seq<char>),
    Str(Seq<char>),
    Arr(Seq<JsonVal>),
    Obj(Seq<(Seq<char>, JsonVal)>),
}

/// The value of the first pair with the given key, if any.
pub open spec fn obj_lookup(ps: Seq<(Seq<char>, JsonVal)>, key: Seq<char>) -> Option<JsonVal>
    decreases ps.len(),
{
    if ps.len() == 0 {
        None
    } else if ps[0].0 == key {
        Some(ps[0].1)
    } else {
        obj_lookup(ps.subrange(1, ps.len() as int), key)
    }
}

/// A JSON value, the lingua franca between the caller, the request
/// bodies and the decoded responses. A number holds the text of its
/// JSON literal; a blob travels as a base64 `Text` per the wire format.
#[derive(Debug, PartialEq)]
pub enum JsonValue {
    Null,
    Bool(bool),
    Number(String),
    Text(String),
    Array(Vec<JsonValue>),
    Object(Vec<(String, JsonValue)>),
}

/// The models of a sequence of values, in order.
pub open spec fn view_arr(xs: Seq<JsonValue>) -> Seq<JsonVal>
    decreases xs,
{
    if xs.len() == 0 {
        Seq::empty()
    } else {
        view_arr(xs.subrange(0, xs.len() - 1)).push(jval_of(xs[xs.len() - 1]))
    }
}

/// The models of a sequence of key-value pairs, in order.
pub open spec fn view_obj(ps: Seq<(String, JsonValue)>) -> Seq<(Seq<char>, JsonVal)>
    decreases ps,
{
    if ps.len() == 0 {
        Seq::empty()
    } else {
        view_obj(ps.subrange(0, ps.len() - 1)).push(
            (ps[ps.len() - 1].0@, jval_of(ps[ps.len() - 1].1)),
        )
    }
}

/// The model of one value.
pub open spec fn jval_of(v: JsonValue) -> JsonVal
    decreases v,
{
    match v {
        JsonValue::Null => JsonVal::Null,
        JsonValue::Bool(b) => JsonVal::Bool(b),
        JsonValue::Number(s) => JsonVal::Num(s@),
        JsonValue::Text(s) => JsonVal::Str(s@),
        JsonValue::Array(xs) => JsonVal::Arr(view_arr(xs@)),
        JsonValue::Object(ps) => JsonVal::Obj(view_obj(ps@)),
    }
}

impl View for JsonValue {
    type V = JsonVal;

    open spec fn view(&self) -> JsonVal {
        jval_of(*self)
    }
}

pub proof fn lemma_view_arr(xs: Seq<JsonValue>)
    ensures
        view_arr(xs).len() == xs.len(),
        forall|i: int| 0 <= i < xs.len() ==> view_arr(xs)[i] == #[trigger] xs[i]@,
    decreases xs.len(),
{
    if xs.len() > 0 {
        let sub = xs.subrange(0, xs.len() - 1);
        lemma_view_arr(sub);
        assert(view_arr(xs) == view_arr(sub).push(xs[xs.len() - 1]@));
        assert forall|i: int| 0 <= i < xs.len() implies view_arr(xs)[i] == #[trigger] xs[i]@ by {
            if i < xs.len() - 1 {
                assert(view_arr(sub)[i] == sub[i]@);
                assert(sub[i] == xs[i]);
            }
        }
    }
}

pub proof fn lemma_view_obj(ps: Seq<(String, JsonValue)>)
    ensures
        view_obj(ps).len() == ps.len(),
        forall|i: int|
            0 <= i < ps.len() ==> view_obj(ps)[i] == (#[trigger] ps[i].0@, ps[i].1@),
    decreases ps.len(),
{
    if ps.len() > 0 {
        let sub = ps.subrange(0, ps.len() - 1);
        lemma_view_obj(sub);
        assert(view_obj(ps) == view_obj(sub).push((ps[ps.len() - 1].0@, ps[ps.len() - 1].1@)));
        assert forall|i: int|
            0 <= i < ps.len() implies view_obj(ps)[i] == (#[trigger] ps[i].0@, ps[i].1@) by {
            if i < ps.len() - 1 {
                assert(view_obj(sub)[i] == (sub[i].0@, sub[i].1@));
                assert(sub[i] == ps[i]);
            }
        }
    }
}

/// What extracting an integer from a JSON value yields: the parsed
/// decimal literal of a number, and nothing for every other shape.
pub open spec fn spec_as_i64(j: JsonVal) -> Option<i64> {
    match j {
        JsonVal::Num(s) => spec_parse_i64(s),
        _ => None,
    }
}

/// The bytes that a base64 text decodes to, or nothing when the text is
/// not valid base64; determined by the characters alone.
pub uninterp spec fn base64_decode_of(s: Seq<char>) -> Option<Seq<u8>>;

/// What extracting a blob from a JSON value yields: the decoded bytes
/// of a base64 text, per the wire format, and nothing for every other
/// shape.
pub open spec fn spec_as_blob(j: JsonVal) -> Option<Seq<u8>> {
    match j {
        JsonVal::Str(s) => base64_decode_of(s),
        _ => None,
    }
}

/// Relies on base64::decode: decodes standard base64 text, succeeding
/// exactly on valid base64, with the bytes determined by the text
/// alone.
#[verifier::external_body]
fn b64_decode(s: &str) -> (r: Option<Vec<u8>>)
    ensures
        r is Some <==> base64_decode_of(s@) is Some,
        r matches Some(v) ==> base64_decode_of(s@) == Some(v@),
{
    match base64::decode(s) {
        Ok(v) => Some(v),
        Err(_) => None,
    }
}

impl JsonValue {
    /// The value that encodes an integer parameter: its decimal literal.
    pub fn from_i64(i: i64) -> (r: JsonValue)
        ensures
            r@ == JsonVal::Num(dec_int(i as int)),
    {
        JsonValue::Number(i64_to_dec(i))
    }

    pub fn is_null(&self) -> (r: bool)
        ensures
            r == (self@ is Null),
    {
        matches!(self, JsonValue::Null)
    }

    /// Extract a boolean, when the value is one.
    pub fn as_bool(&self) -> (r: Option<bool>)
        ensures
            r == (match self@ {
                JsonVal::Bool(b) => Some(b),
                _ => None,
            }),
    {
        match self {
            JsonValue::Bool(b) => Some(*b),
            _ => None,
        }
    }

    /// Extract an integer: the value must be a number whose literal is a
    /// decimal integer in `i64` range.
    pub fn as_i64(&self) -> (r: Option<i64>)
        ensures
            r == spec_as_i64(self@),
    {
        match self {
            JsonValue::Number(s) => parse_i64(s.as_str()),
            _ => None,
        }
    }

    /// Extract a number's literal text, when the value is a number.
    pub fn as_number(&self) -> (r: Option<String>)
        ensures
            (r is Some <==> self@ is Num),
            r matches Some(t) ==> self@ == JsonVal::Num(t@),
    {
        match self {
            JsonValue::Number(s) => Some(s.clone()),
            _ => None,
        }
    }

    /// Extract a blob: a base64 text, decoded to its bytes per the wire
    /// format.
    pub fn as_blob(&self) -> (r: Option<Vec<u8>>)
        ensures
            r is Some <==> spec_as_blob(self@) is Some,
            r matches Some(v) ==> spec_as_blob(self@) == Some(v@),
    {
        match self {
            JsonValue::Text(s) => b64_decode(s.as_str()),
            _ => None,
        }
    }

    /// Extract a text, when the value is one.
    pub fn as_text(&self) -> (r: Option<String>)
        ensures
            (r is Some <==> self@ is Str),
            r matches Some(t) ==> self@ == JsonVal::Str(t@),
    {
        match self {
            JsonValue::Text(s) => Some(s.clone()),
            _ => None,
        }
    }

    /// The value of the first field with the given name, when the value
    /// is an object that has one.
    pub fn get_field<'a>(&'a self, key: &str) -> (r: Option<&'a JsonValue>)
        ensures
            self@ matches JsonVal::Obj(m) ==> (match r {
                Some(v) => obj_lookup(m, key@) == Some(v@),
                None => obj_lookup(m, key@) is None,
            }),
            !(self@ is Obj) ==> r is None,
    {
        match self {
            JsonValue::Object(ps) => {
                proof {
                    lemma_view_obj(ps@);
                }
                let ghost m = view_obj(ps@);
                proof {
                    assert(m.subrange(0, m.len() as int) =~= m);
                }
                let mut i: usize = 0;
                while i < ps.len()
                    invariant
                        0 <= i <= ps@.len(),
                        self@ == JsonVal::Obj(m),
                        m == view_obj(ps@),
                        m.len() == ps@.len(),
                        forall|j: int|
                            0 <= j < ps@.len() ==> m[j] == (#[trigger] ps@[j].0@, ps@[j].1@),
                        obj_lookup(m, key@) == obj_lookup(m.subrange(i as int, m.len() as int), key@),
                    decreases ps@.len() - i,
                {
                    if str_eq(ps[i].0.as_str(), key) {
                        proof {
                            let tail = m.subrange(i as int, m.len() as int);
                            assert(tail[0] == m[i as int]);
                            assert(m[i as int].0 == ps@[i as int].0@);
                            assert(obj_lookup(tail, key@) == Some(m[i as int].1));
                            assert(obj_lookup(m, key@) == Some(ps@[i as int].1@));
                            assert(self@ == JsonVal::Obj(m));
                        }
                        return Some(&ps[i].1);
                    }
                    proof {
                        let tail = m.subrange(i as int, m.len() as int);
                        assert(tail[0] == m[i as int]);
                        assert(tail.subrange(1, tail.len() as int) =~= m.subrange(
                            i + 1,
                            m.len() as int,
                        ));
                    }
                    i += 1;
                }
                proof {
                    assert(m.subrange(i as int, m.len() as int) =~= Seq::empty());
                }
                None
            },
            _ => None,
        }
    }
}

/// A deep copy of a value, equal to the original in its model.
#[verifier::loop_isolation(false)]
pub fn clone_value(v: &JsonValue) -> (r: JsonValue)
    ensures
        r@ == v@,
    decreases *v,
{
    match v {
        JsonValue::Null => JsonValue::Null,
        JsonValue::Bool(b) => JsonValue::Bool(*b),
        JsonValue::Number(s) => JsonValue::Number(s.clone()),
        JsonValue::Text(s) => JsonValue::Text(s.clone()),
        JsonValue::Array(xs) => {
            let mut out: Vec<JsonValue> = Vec::new();
            let mut i: usize = 0;
            while i < xs.len()
                invariant
                    0 <= i <= xs@.len(),
                    out@.len() == i,
                    forall|j: int| 0 <= j < i ==> (#[trigger] out@[j])@ == xs@[j]@,
                decreases xs@.len() - i,
            {
                proof {
                    assert(decreases_to!(*v => xs@[i as int]));
                }
                let e = clone_value(&xs[i]);
                out.push(e);
                i += 1;
            }
            proof {
                lemma_view_arr(out@);
                lemma_view_arr(xs@);
                assert forall|j: int|
                    0 <= j < xs@.len() implies view_arr(out@)[j] == view_arr(xs@)[j] by {
                    assert(view_arr(out@)[j] == out@[j]@);
                    assert(view_arr(xs@)[j] == xs@[j]@);
                }
                assert(view_arr(out@) =~= view_arr(xs@));
            }
            JsonValue::Array(out)
        },
        JsonValue::Object(ps) => {
            let mut out: Vec<(String, JsonValue)> = Vec::new();
            let mut i: usize = 0;
            while i < ps.len()
                invariant
                    0 <= i <= ps@.len(),
                    out@.len() == i,
                    forall|j: int|
                        0 <= j < i ==> (#[trigger] out@[j]).0@ == ps@[j].0@ && out@[j].1@
                            == ps@[j].1@,
                decreases ps@.len() - i,
            {
                proof {
                    assert(decreases_to!(*v => ps@[i as int].1));
                }
                let e = clone_value(&ps[i].1);
                out.push((ps[i].0.clone(), e));
                i += 1;
            }
            proof {
                lemma_view_obj(out@);
                lemma_view_obj(ps@);
                assert forall|j: int|
                    0 <= j < ps@.len() implies view_obj(out@)[j] == view_obj(ps@)[j] by {
                    assert(view_obj(out@)[j] == (out@[j].0@, out@[j].1@));
                    assert(view_obj(ps@)[j] == (ps@[j].0@, ps@[j].1@));
                }
                assert(view_obj(out@) =~= view_obj(ps@));
            }
            JsonValue::Object(out)
        },
    }
}

/// Law: integer round trip. An integer encoded as a parameter (its
/// decimal number literal) is extracted back unchanged by the typed
/// integer access.
pub proof fn lemma_i64_round_trip(i: i64)
    ensures
        spec_as_i64(JsonVal::Num(dec_int(i as int))) == Some(i),
{
    lemma_dec_int_round_trip(i);
}

} // verus!
