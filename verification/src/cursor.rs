use crate::connect::{plan_matches, ConnectOptions, RequestPlan};
use crate::error::{deser_msg, RqliteError};
use crate::json::{json_encode, json_text_of, json_wf};
use crate::num::spec_parse_i64;
use crate::row::Row;
use crate::types::{parse_vec_types, spec_type_of, Type};
use crate::value::{
    clone_value, lemma_view_arr, obj_lookup, view_arr, JsonVal, JsonValue,
};
use vstd::prelude::*;
use vstd::string::*;

verus! {

/// The decoded result of one statement: the declared columns and
/// types, the rows, and the DML counters. Built from one response
/// body; not reusable across statements.
#[derive(Debug)]
pub struct Cursor {
    pub columns: Vec<String>,
    pub types: Vec<Type>,
    pub rows: Vec<Row>,
    pub affected: i64,
    pub last_insert: Option<i64>,
}

/// The body of a parameterized-statement request: one statement, the
/// SQL text first and the already-encoded parameters after it, inside
/// the request's statement list.
pub open spec fn execute_body_model(q: Seq<char>, params: Seq<JsonVal>) -> JsonVal {
    JsonVal::Arr(seq![JsonVal::Arr(seq![JsonVal::Str(q)] + params)])
}

/// The first result record of a response: the response must be an
/// object whose `results` field is a non-empty array.
pub open spec fn results_entry(jv: JsonVal) -> Option<JsonVal> {
    if jv is Obj {
        match obj_lookup(jv->Obj_0, "results"@) {
            Some(rs) => if rs is Arr && rs->Arr_0.len() > 0 {
                Some(rs->Arr_0[0])
            } else {
                None
            },
            None => None,
        }
    } else {
        None
    }
}

/// An array of texts.
pub open spec fn str_arr_ok(j: JsonVal) -> bool {
    j is Arr && forall|i: int| 0 <= i < j->Arr_0.len() ==> (#[trigger] j->Arr_0[i]) is Str
}

/// An array of texts, each a known declared-type tag.
pub open spec fn types_ok(j: JsonVal) -> bool {
    j is Arr && forall|i: int|
        0 <= i < j->Arr_0.len() ==> ((#[trigger] j->Arr_0[i]) matches JsonVal::Str(s)
            && spec_type_of(s) is Some)
}

/// An array of arrays: the rows.
pub open spec fn rows_ok(j: JsonVal) -> bool {
    j is Arr && forall|i: int| 0 <= i < j->Arr_0.len() ==> (#[trigger] j->Arr_0[i]) is Arr
}

/// A number holding an integer counter.
pub open spec fn count_ok(j: JsonVal) -> bool {
    j is Num && spec_parse_i64(j->Num_0) is Some
}

/// The result record decodes without error: each optional field that
/// is present has its expected shape, every declared type is known,
/// and the record reports no statement error.
pub open spec fn entry_shape_ok(e: Seq<(Seq<char>, JsonVal)>) -> bool {
    &&& (match obj_lookup(e, "columns"@) {
        None => true,
        Some(c) => str_arr_ok(c),
    })
    &&& (match obj_lookup(e, "types"@) {
        None => true,
        Some(t) => types_ok(t),
    })
    &&& (match obj_lookup(e, "values"@) {
        None => true,
        Some(v) => rows_ok(v),
    })
    &&& (match obj_lookup(e, "rows_affected"@) {
        None => true,
        Some(x) => count_ok(x),
    })
    &&& (match obj_lookup(e, "last_insert_id"@) {
        None => true,
        Some(x) => count_ok(x),
    })
    &&& obj_lookup(e, "error"@) is None
}

/// The statement error a result record reports, if any.
pub open spec fn reported_error(jv: JsonVal) -> Option<Seq<char>> {
    match results_entry(jv) {
        Some(m) => if m is Obj {
            match obj_lookup(m->Obj_0, "error"@) {
                Some(JsonVal::Str(t)) => Some(t),
                _ => None,
            }
        } else {
            None
        },
        None => None,
    }
}

/// A response whose first result record decodes without error.
pub open spec fn body_decodes(jv: JsonVal) -> bool {
    results_entry(jv) matches Some(m) && m is Obj && entry_shape_ok(m->Obj_0)
}

/// The column names a `columns` field carries.
pub open spec fn cols_match(j: JsonVal, cols: Seq<String>) -> bool {
    &&& j is Arr
    &&& cols.len() == j->Arr_0.len()
    &&& forall|i: int|
        0 <= i < j->Arr_0.len() ==> j->Arr_0[i] == JsonVal::Str((#[trigger] cols[i])@)
}

/// The declared types a `types` field carries, each tag mapped by the
/// type parser.
pub open spec fn types_match(j: JsonVal, ts: Seq<Type>) -> bool {
    &&& j is Arr
    &&& ts.len() == j->Arr_0.len()
    &&& forall|i: int|
        0 <= i < j->Arr_0.len() ==> ((#[trigger] j->Arr_0[i]) matches JsonVal::Str(s)
            && spec_type_of(s) == Some(ts[i]))
}

/// The rows a `values` field carries, element by element.
pub open spec fn rows_match(j: JsonVal, rs: Seq<Row>) -> bool {
    &&& j is Arr
    &&& rs.len() == j->Arr_0.len()
    &&& forall|i: int| 0 <= i < j->Arr_0.len() ==> j->Arr_0[i] == JsonVal::Arr((#[trigger] rs[i])@)
}

/// The cursor a well-shaped result record decodes to: an absent field
/// is empty (or zero); a present one is taken as it stands.
pub open spec fn cursor_matches(c: Cursor, e: Seq<(Seq<char>, JsonVal)>) -> bool {
    &&& (match obj_lookup(e, "columns"@) {
        None => c.columns@.len() == 0,
        Some(cv) => cols_match(cv, c.columns@),
    })
    &&& (match obj_lookup(e, "types"@) {
        None => c.types@.len() == 0,
        Some(tv) => types_match(tv, c.types@),
    })
    &&& (match obj_lookup(e, "values"@) {
        None => c.rows@.len() == 0,
        Some(vv) => rows_match(vv, c.rows@),
    })
    &&& (match obj_lookup(e, "rows_affected"@) {
        None => c.affected == 0,
        Some(x) => x is Num && spec_parse_i64(x->Num_0) == Some(c.affected),
    })
    &&& (match obj_lookup(e, "last_insert_id"@) {
        None => c.last_insert is None,
        Some(x) => x is Num && spec_parse_i64(x->Num_0) == c.last_insert,
    })
}

/// Read an array of texts.
fn as_strings(v: &JsonValue) -> (r: Option<Vec<String>>)
    ensures
        r is Some <==> str_arr_ok(v@),
        r matches Some(ss) ==> cols_match(v@, ss@),
{
    match v {
        JsonValue::Array(xs) => {
            proof {
                lemma_view_arr(xs@);
            }
            let mut out: Vec<String> = Vec::new();
            let mut i: usize = 0;
            #[verifier::loop_isolation(false)]
            while i < xs.len()
                invariant
                    0 <= i <= xs@.len(),
                    out@.len() == i,
                    forall|j: int|
                        0 <= j < i ==> v@->Arr_0[j] == JsonVal::Str((#[trigger] out@[j])@),
                decreases xs@.len() - i,
            {
                match xs[i].as_text() {
                    Some(t) => out.push(t),
                    None => {
                        proof {
                            assert(v@->Arr_0[i as int] == xs@[i as int]@);
                            assert(!((v@->Arr_0[i as int]) is Str));
                        }
                        return None;
                    },
                }
                i += 1;
            }
            proof {
                assert forall|j: int|
                    0 <= j < v@->Arr_0.len() implies (#[trigger] v@->Arr_0[j]) is Str by {
                    assert(v@->Arr_0[j] == JsonVal::Str(out@[j]@));
                }
            }
            Some(out)
        },
        _ => None,
    }
}

/// Read an array of arrays as rows, copying each row's values.
fn as_rows(v: &JsonValue) -> (r: Option<Vec<Row>>)
    ensures
        r is Some <==> rows_ok(v@),
        r matches Some(rs) ==> rows_match(v@, rs@),
{
    match v {
        JsonValue::Array(xs) => {
            proof {
                lemma_view_arr(xs@);
            }
            let mut out: Vec<Row> = Vec::new();
            let mut i: usize = 0;
            #[verifier::loop_isolation(false)]
            while i < xs.len()
                invariant
                    0 <= i <= xs@.len(),
                    out@.len() == i,
                    forall|j: int|
                        0 <= j < i ==> v@->Arr_0[j] == JsonVal::Arr((#[trigger] out@[j])@),
                decreases xs@.len() - i,
            {
                proof {
                    assert(v@->Arr_0[i as int] == xs@[i as int]@);
                }
                let copied = clone_value(&xs[i]);
                match copied {
                    JsonValue::Array(cells) => out.push(Row::new(cells)),
                    _ => {
                        return None;
                    },
                }
                i += 1;
            }
            proof {
                assert forall|j: int|
                    0 <= j < v@->Arr_0.len() implies (#[trigger] v@->Arr_0[j]) is Arr by {
                    assert(v@->Arr_0[j] == JsonVal::Arr(out@[j]@));
                }
            }
            Some(out)
        },
        _ => None,
    }
}

fn deser_err() -> (e: RqliteError)
    ensures
        e matches RqliteError::SqlError(m) && m@ == deser_msg(),
{
    RqliteError::SqlError("error deserializing response body".to_owned())
}

impl Cursor {
    /// The number of rows the statement changed.
    pub fn rows_affected(&self) -> (r: i64)
        ensures
            r == self.affected,
    {
        self.affected
    }

    /// The row id the statement inserted, when the response reported
    /// one.
    pub fn last_insert_id(&self) -> (r: Option<i64>)
        ensures
            r == self.last_insert,
    {
        self.last_insert
    }

    /// Decode one execute response.
    ///
    /// Succeeds exactly when the response is an object whose `results`
    /// field is a non-empty array whose first record is a well-shaped
    /// object; the cursor then carries that record's columns, types,
    /// rows and counters. A response of another shape is a SQL error
    /// naming the decode stage; a record that reports a statement
    /// error is a SQL error carrying that message; an unknown declared
    /// type is a serialization error naming the tag.
    pub fn from_body(v: &JsonValue) -> (r: Result<Cursor, RqliteError>)
        ensures
            r is Ok <==> body_decodes(v@),
            r matches Ok(c) ==> (results_entry(v@) matches Some(m) && cursor_matches(
                c,
                m->Obj_0,
            )),
            results_entry(v@) is None ==> (r matches Err(e) && e matches RqliteError::SqlError(msg)
                && msg@ == deser_msg()),
            reported_error(v@) matches Some(t) ==> (r matches Err(e)
                && e matches RqliteError::SqlError(msg) && msg@ == t),
            r matches Err(e) ==> (e is SqlError || e is DataSer),
    {
        let results = match v.get_field("results") {
            Some(f) => f,
            None => {
                return Err(deser_err());
            },
        };
        let first = match results {
            JsonValue::Array(rs) => {
                if rs.len() == 0 {
                    return Err(deser_err());
                }
                proof {
                    lemma_view_arr(rs@);
                    assert(results@->Arr_0[0] == rs@[0]@);
                }
                &rs[0]
            },
            _ => {
                return Err(deser_err());
            },
        };
        let ghost m = first@;
        proof {
            assert(results_entry(v@) == Some(m));
        }
        match first {
            JsonValue::Object(_) => {},
            _ => {
                return Err(deser_err());
            },
        }
        match first.get_field("error") {
            Some(f) => {
                match f.as_text() {
                    Some(t) => {
                        return Err(RqliteError::SqlError(t));
                    },
                    None => {
                        return Err(deser_err());
                    },
                }
            },
            None => {},
        }
        let columns = match first.get_field("columns") {
            Some(f) => match as_strings(f) {
                Some(ss) => ss,
                None => {
                    return Err(deser_err());
                },
            },
            None => Vec::new(),
        };
        let types = match first.get_field("types") {
            Some(f) => match as_strings(f) {
                Some(tags) => match parse_vec_types(&tags) {
                    Ok(ts) => {
                        proof {
                            let tv = obj_lookup(m->Obj_0, "types"@)->0;
                            assert forall|i: int|
                                0 <= i < tv->Arr_0.len() implies ((#[trigger] tv->Arr_0[i])
                                matches JsonVal::Str(s) && spec_type_of(s) == Some(
                                ts@[i],
                            )) by {
                                assert(tv->Arr_0[i] == JsonVal::Str(tags@[i]@));
                                assert(spec_type_of(tags@[i]@) == Some(ts@[i]));
                            }
                        }
                        ts
                    },
                    Err(e) => {
                        proof {
                            let tv = obj_lookup(m->Obj_0, "types"@)->0;
                            let k = choose|k: int|
                                0 <= k < tags@.len() && spec_type_of(#[trigger] tags@[k]@) is None;
                            assert(tv->Arr_0[k] == JsonVal::Str(tags@[k]@));
                            assert(!types_ok(tv));
                        }
                        return Err(e);
                    },
                },
                None => {
                    return Err(deser_err());
                },
            },
            None => Vec::new(),
        };
        let rows = match first.get_field("values") {
            Some(f) => match as_rows(f) {
                Some(rs) => rs,
                None => {
                    return Err(deser_err());
                },
            },
            None => Vec::new(),
        };
        let affected = match first.get_field("rows_affected") {
            Some(f) => match f.as_i64() {
                Some(n) => n,
                None => {
                    return Err(deser_err());
                },
            },
            None => 0,
        };
        let last_insert = match first.get_field("last_insert_id") {
            Some(f) => match f.as_i64() {
                Some(n) => Some(n),
                None => {
                    return Err(deser_err());
                },
            },
            None => None,
        };
        Ok(Cursor { columns, types, rows, affected, last_insert })
    }
}

/// Build the body of a parameterized-statement request: the SQL text
/// first, then the parameters, as one statement in the statement list.
pub fn execute_body(query: &str, params: &Vec<JsonValue>) -> (b: JsonValue)
    ensures
        b@ == execute_body_model(query@, view_arr(params@)),
{
    let mut stmt: Vec<JsonValue> = Vec::new();
    stmt.push(JsonValue::Text(query.to_owned()));
    let mut i: usize = 0;
    #[verifier::loop_isolation(false)]
    while i < params.len()
        invariant
            0 <= i <= params@.len(),
            stmt@.len() == 1 + i,
            stmt@[0]@ == JsonVal::Str(query@),
            forall|j: int| 1 <= j < stmt@.len() ==> (#[trigger] stmt@[j])@ == params@[j - 1]@,
        decreases params@.len() - i,
    {
        stmt.push(clone_value(&params[i]));
        i += 1;
    }
    proof {
        lemma_view_arr(stmt@);
        lemma_view_arr(params@);
        let full = seq![JsonVal::Str(query@)] + view_arr(params@);
        assert forall|j: int| 0 <= j < stmt@.len() implies view_arr(stmt@)[j] == full[j] by {
            assert(view_arr(stmt@)[j] == stmt@[j]@);
            if j >= 1 {
                assert(stmt@[j]@ == params@[j - 1]@);
                assert(view_arr(params@)[j - 1] == params@[j - 1]@);
            }
        }
        assert(view_arr(stmt@) =~= full);
    }
    let ghost stmt_model = view_arr(stmt@);
    let mut outer: Vec<JsonValue> = Vec::new();
    outer.push(JsonValue::Array(stmt));
    proof {
        lemma_view_arr(outer@);
        assert(view_arr(outer@)[0] == outer@[0]@);
        assert(outer@[0]@ == JsonVal::Arr(stmt_model));
        assert(view_arr(outer@) =~= seq![JsonVal::Arr(stmt_model)]);
    }
    JsonValue::Array(outer)
}

/// Build the request that executes a parameterized statement: a POST
/// of the statement endpoint with the statement-list body. Succeeds on
/// every well-formed body (every body the library's own encoders
/// build); a parameter holding an invalid number literal is a
/// serialization error.
pub fn execute_request(o: &ConnectOptions, query: &str, params: &Vec<JsonValue>) -> (r: Result<
    RequestPlan,
    RqliteError,
>)
    ensures
        ({
            let bm = execute_body_model(query@, view_arr(params@));
            &&& (json_wf(bm) ==> r is Ok)
            &&& (r matches Err(e) ==> (e is DataSer && !json_wf(bm)))
            &&& (r matches Ok(p) ==> {
                &&& plan_matches(p, *o, "POST"@, "/db/execute"@)
                &&& p.body matches Some(b) && (json_wf(bm) ==> b@ == json_text_of(bm))
            })
        }),
{
    let body_val = execute_body(query, params);
    let body = match json_encode(&body_val) {
        Ok(b) => b,
        Err(e) => {
            return Err(e);
        },
    };
    Ok(
        RequestPlan {
            method: "POST".to_owned(),
            path: "/db/execute".to_owned(),
            headers: o.request_headers(),
            body: Some(body),
        },
    )
}

} // verus!
