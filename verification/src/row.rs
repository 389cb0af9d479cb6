use crate::error::RqliteError;
use crate::num::{dec_rep, u64_to_dec};
use crate::value::{lemma_view_arr, spec_as_blob, spec_as_i64, view_arr, JsonVal, JsonValue};
use vstd::prelude::*;
use vstd::string::*;

verus! {

/// One result row: an ordered sequence of JSON values, positionally
/// aligned with the statement's declared columns. Immutable once
/// constructed; typed access happens per call through `get` and the
/// typed getters.
#[derive(Debug, PartialEq)]
pub struct Row {
    row: Vec<JsonValue>,
}

impl View for Row {
    type V = Seq<JsonVal>;

    closed spec fn view(&self) -> Seq<JsonVal> {
        view_arr(self.row@)
    }
}

/// The message of the bounds error for a row access past the end.
pub open spec fn bounds_msg(id: int) -> Seq<char> {
    "row element with index "@ + dec_rep(id as nat) + " does not exist"@
}

/// The message of the decode error for an element that does not have
/// the requested type.
pub open spec fn decode_msg(id: int, ty: Seq<char>) -> Seq<char> {
    "cannot decode row element "@ + dec_rep(id as nat) + " as "@ + ty
}

impl Row {
    pub fn new(row: Vec<JsonValue>) -> (r: Row)
        ensures
            r@ == view_arr(row@),
    {
        Row { row }
    }

    pub fn len(&self) -> (n: usize)
        ensures
            n == self@.len(),
    {
        proof {
            lemma_view_arr(self.row@);
        }
        self.row.len()
    }

    /// The element at `id`; an index at or past the row's length is a
    /// bounds error naming the index.
    pub fn get<'a>(&'a self, id: usize) -> (r: Result<&'a JsonValue, RqliteError>)
        ensures
            id < self@.len() ==> (r matches Ok(v) && v@ == self@[id as int]),
            id >= self@.len() ==> (r matches Err(e) && e matches RqliteError::DataSer(m) && m@
                == bounds_msg(id as int)),
    {
        proof {
            lemma_view_arr(self.row@);
        }
        if id >= self.row.len() {
            let n = u64_to_dec(id as u64);
            let msg = "row element with index ".to_owned().concat(n.as_str()).concat(
                " does not exist",
            );
            proof {
                assert(msg@ =~= bounds_msg(id as int));
            }
            Err(RqliteError::DataSer(msg))
        } else {
            Ok(&self.row[id])
        }
    }

    /// The element at `id` as an integer.
    pub fn get_i64(&self, id: usize) -> (r: Result<i64, RqliteError>)
        ensures
            id >= self@.len() ==> (r matches Err(e) && e matches RqliteError::DataSer(m) && m@
                == bounds_msg(id as int)),
            id < self@.len() ==> (match spec_as_i64(self@[id as int]) {
                Some(v) => r == Ok::<i64, RqliteError>(v),
                None => r matches Err(e) && e matches RqliteError::DataSer(m) && m@ == decode_msg(
                    id as int,
                    "integer"@,
                ),
            }),
    {
        match self.get(id) {
            Ok(v) => match v.as_i64() {
                Some(i) => Ok(i),
                None => Err(RqliteError::DataSer(Self::mk_decode_msg(id, "integer"))),
            },
            Err(e) => Err(e),
        }
    }

    /// The element at `id` as a text.
    pub fn get_text(&self, id: usize) -> (r: Result<String, RqliteError>)
        ensures
            id >= self@.len() ==> (r matches Err(e) && e matches RqliteError::DataSer(m) && m@
                == bounds_msg(id as int)),
            id < self@.len() ==> (match self@[id as int] {
                JsonVal::Str(s) => r matches Ok(t) && t@ == s,
                _ => r matches Err(e) && e matches RqliteError::DataSer(m) && m@ == decode_msg(
                    id as int,
                    "text"@,
                ),
            }),
    {
        match self.get(id) {
            Ok(v) => match v.as_text() {
                Some(t) => Ok(t),
                None => Err(RqliteError::DataSer(Self::mk_decode_msg(id, "text"))),
            },
            Err(e) => Err(e),
        }
    }

    /// The element at `id` as a boolean.
    pub fn get_bool(&self, id: usize) -> (r: Result<bool, RqliteError>)
        ensures
            id >= self@.len() ==> (r matches Err(e) && e matches RqliteError::DataSer(m) && m@
                == bounds_msg(id as int)),
            id < self@.len() ==> (match self@[id as int] {
                JsonVal::Bool(b) => r == Ok::<bool, RqliteError>(b),
                _ => r matches Err(e) && e matches RqliteError::DataSer(m) && m@ == decode_msg(
                    id as int,
                    "boolean"@,
                ),
            }),
    {
        match self.get(id) {
            Ok(v) => match v.as_bool() {
                Some(b) => Ok(b),
                None => Err(RqliteError::DataSer(Self::mk_decode_msg(id, "boolean"))),
            },
            Err(e) => Err(e),
        }
    }

    /// The element at `id` as a blob: a base64-encoded text, decoded to
    /// its bytes per the wire format.
    pub fn get_blob(&self, id: usize) -> (r: Result<Vec<u8>, RqliteError>)
        ensures
            id >= self@.len() ==> (r matches Err(e) && e matches RqliteError::DataSer(m) && m@
                == bounds_msg(id as int)),
            id < self@.len() ==> (match spec_as_blob(self@[id as int]) {
                Some(b) => r matches Ok(v) && v@ == b,
                None => r matches Err(e) && e matches RqliteError::DataSer(m) && m@ == decode_msg(
                    id as int,
                    "blob"@,
                ),
            }),
    {
        match self.get(id) {
            Ok(v) => match v.as_blob() {
                Some(b) => Ok(b),
                None => Err(RqliteError::DataSer(Self::mk_decode_msg(id, "blob"))),
            },
            Err(e) => Err(e),
        }
    }

    fn mk_decode_msg(id: usize, ty: &str) -> (r: String)
        ensures
            r@ == decode_msg(id as int, ty@),
    {
        let n = u64_to_dec(id as u64);
        let msg = "cannot decode row element ".to_owned().concat(n.as_str()).concat(" as ").concat(
            ty,
        );
        proof {
            assert(msg@ =~= decode_msg(id as int, ty@));
        }
        msg
    }
}

} // verus!
