use crate::connect::{plan_matches, ConnectOptions, RequestPlan};
use crate::error::{deser_msg, RqliteError};
use crate::json::{json_encode, json_text_of, json_wf};
use crate::value::{lemma_view_obj, obj_lookup, view_obj, JsonVal, JsonValue};
use vstd::prelude::*;
use vstd::string::*;

verus! {

/// One member of the cluster, as the node-listing response reports it:
/// its id (the response map's key), API and Raft addresses, whether it
/// is reachable, whether it leads, and the round-trip latency, kept as
/// the decimal text of the JSON number so that no floating-point
/// rounding enters the library.
#[derive(Debug, Clone, PartialEq)]
pub struct Node {
    pub id: String,
    pub api_addr: String,
    pub addr: String,
    pub reachable: bool,
    pub leader: bool,
    pub time: String,
}

/// A node record has the five expected fields with the expected kinds.
pub open spec fn node_shape_ok(jv: JsonVal) -> bool {
    &&& jv is Obj
    &&& obj_lookup(jv->Obj_0, "api_addr"@) matches Some(x) && x is Str
    &&& obj_lookup(jv->Obj_0, "addr"@) matches Some(x) && x is Str
    &&& obj_lookup(jv->Obj_0, "reachable"@) matches Some(x) && x is Bool
    &&& obj_lookup(jv->Obj_0, "leader"@) matches Some(x) && x is Bool
    &&& obj_lookup(jv->Obj_0, "time"@) matches Some(x) && x is Num
}

/// The node that a well-shaped record decodes to, paired with its id.
pub open spec fn node_matches(n: Node, id: Seq<char>, jv: JsonVal) -> bool {
    &&& n.id@ == id
    &&& jv is Obj
    &&& obj_lookup(jv->Obj_0, "api_addr"@) == Some(JsonVal::Str(n.api_addr@))
    &&& obj_lookup(jv->Obj_0, "addr"@) == Some(JsonVal::Str(n.addr@))
    &&& obj_lookup(jv->Obj_0, "reachable"@) == Some(JsonVal::Bool(n.reachable))
    &&& obj_lookup(jv->Obj_0, "leader"@) == Some(JsonVal::Bool(n.leader))
    &&& obj_lookup(jv->Obj_0, "time"@) == Some(JsonVal::Num(n.time@))
}

/// The request that lists the cluster's nodes: a GET of the node
/// listing endpoint, with the nonvoters variant when asked for.
pub fn nodes_request(o: &ConnectOptions, show_nonvoters: bool) -> (p: RequestPlan)
    ensures
        plan_matches(
            p,
            *o,
            "GET"@,
            if show_nonvoters {
                "/nodes?nonvoters"@
            } else {
                "/nodes"@
            },
        ),
        p.body is None,
{
    RequestPlan {
        method: "GET".to_owned(),
        path: if show_nonvoters {
            "/nodes?nonvoters".to_owned()
        } else {
            "/nodes".to_owned()
        },
        headers: o.request_headers(),
        body: None,
    }
}

/// The request that asks whether the node is ready: a GET of the
/// readiness endpoint.
pub fn ready_request(o: &ConnectOptions) -> (p: RequestPlan)
    ensures
        plan_matches(p, *o, "GET"@, "/readyz"@),
        p.body is None,
{
    RequestPlan {
        method: "GET".to_owned(),
        path: "/readyz".to_owned(),
        headers: o.request_headers(),
        body: None,
    }
}

/// The body of a node-removal request: the object `{"id": id}`.
pub open spec fn remove_body(id: Seq<char>) -> JsonVal {
    JsonVal::Obj(seq![("id"@, JsonVal::Str(id))])
}

/// The request that removes a node from the cluster: a DELETE of the
/// removal endpoint whose body names the node.
pub fn remove_request(o: &ConnectOptions, id: &str) -> (p: RequestPlan)
    ensures
        plan_matches(p, *o, "DELETE"@, "/remove"@),
        p.body matches Some(b) && b@ == json_text_of(remove_body(id@)),
{
    let mut pairs: Vec<(String, JsonValue)> = Vec::new();
    pairs.push(("id".to_owned(), JsonValue::Text(id.to_owned())));
    let body_val = JsonValue::Object(pairs);
    proof {
        lemma_view_obj(pairs@);
        assert(view_obj(pairs@) =~= seq![("id"@, JsonVal::Str(id@))]);
        assert(body_val@ == remove_body(id@));
        let bps = body_val@->Obj_0;
        assert forall|i: int| 0 <= i < bps.len() implies json_wf(#[trigger] bps[i].1) by {
            assert(bps[i].1 == JsonVal::Str(id@));
        }
        assert(json_wf(body_val@));
    }
    let body = match json_encode(&body_val) {
        Ok(b) => b,
        Err(_) => {
            proof {
                assert(false);
            }
            vstd::pervasive::unreached()
        },
    };
    RequestPlan {
        method: "DELETE".to_owned(),
        path: "/remove".to_owned(),
        headers: o.request_headers(),
        body: Some(body),
    }
}

/// Decode one node record, paired with the id it was keyed by.
fn node_from_entry(id: &String, val: &JsonValue) -> (r: Result<Node, RqliteError>)
    ensures
        r matches Ok(n) ==> node_shape_ok(val@) && node_matches(n, id@, val@),
        r is Ok <==> node_shape_ok(val@),
        r matches Err(e) ==> e matches RqliteError::DataSer(m) && m@
            == "error deserializing node record"@,
{
    let bad = || -> (e: RqliteError)
        ensures
            e matches RqliteError::DataSer(m) && m@ == "error deserializing node record"@,
        { RqliteError::DataSer("error deserializing node record".to_owned()) };
    let api_addr = match val.get_field("api_addr") {
        Some(f) => match f.as_text() {
            Some(t) => t,
            None => {
                return Err(bad());
            },
        },
        None => {
            return Err(bad());
        },
    };
    let addr = match val.get_field("addr") {
        Some(f) => match f.as_text() {
            Some(t) => t,
            None => {
                return Err(bad());
            },
        },
        None => {
            return Err(bad());
        },
    };
    let reachable = match val.get_field("reachable") {
        Some(f) => match f.as_bool() {
            Some(b) => b,
            None => {
                return Err(bad());
            },
        },
        None => {
            return Err(bad());
        },
    };
    let leader = match val.get_field("leader") {
        Some(f) => match f.as_bool() {
            Some(b) => b,
            None => {
                return Err(bad());
            },
        },
        None => {
            return Err(bad());
        },
    };
    let time = match val.get_field("time") {
        Some(f) => match f.as_number() {
            Some(t) => t,
            None => {
                return Err(bad());
            },
        },
        None => {
            return Err(bad());
        },
    };
    Ok(Node { id: id.clone(), api_addr, addr, reachable, leader, time })
}

/// Decode the node-listing response: a JSON object keyed by node id,
/// each value a node record. Succeeds exactly when the response is an
/// object all of whose records are well shaped, yielding one node per
/// entry, in the object's order; a non-object response is a SQL error,
/// and a bad record a serialization error.
#[verifier::loop_isolation(false)]
pub fn nodes_from_body(v: &JsonValue) -> (r: Result<Vec<Node>, RqliteError>)
    ensures
        r matches Ok(ns) ==> {
            &&& v@ matches JsonVal::Obj(entries)
            &&& ns@.len() == entries.len()
            &&& forall|i: int|
                0 <= i < entries.len() ==> node_matches(#[trigger] ns@[i], entries[i].0, entries[i].1)
        },
        r is Ok <==> (v@ is Obj && forall|i: int|
            0 <= i < v@->Obj_0.len() ==> node_shape_ok(#[trigger] v@->Obj_0[i].1)),
        r matches Err(e) ==> (if v@ is Obj {
            e matches RqliteError::DataSer(m) && m@ == "error deserializing node record"@
        } else {
            e matches RqliteError::SqlError(m) && m@ == deser_msg()
        }),
{
    match v {
        JsonValue::Object(ps) => {
            proof {
                lemma_view_obj(ps@);
            }
            let ghost entries = view_obj(ps@);
            proof {
                assert(v@ == JsonVal::Obj(entries));
                assert(entries.len() == ps@.len());
            }
            let mut out: Vec<Node> = Vec::new();
            let mut i: usize = 0;
            while i < ps.len()
                invariant
                    0 <= i <= ps@.len(),
                    out@.len() == i,
                    forall|j: int|
                        0 <= j < i ==> node_matches(#[trigger] out@[j], entries[j].0, entries[j].1),
                    forall|j: int| 0 <= j < i ==> node_shape_ok(#[trigger] entries[j].1),
                decreases ps@.len() - i,
            {
                match node_from_entry(&ps[i].0, &ps[i].1) {
                    Ok(n) => out.push(n),
                    Err(e) => {
                        proof {
                            assert(entries[i as int] == (ps@[i as int].0@, ps@[i as int].1@));
                            assert(!node_shape_ok(entries[i as int].1));
                            assert(!node_shape_ok(v@->Obj_0[i as int].1));
                        }
                        return Err(e);
                    },
                }
                i += 1;
            }
            Ok(out)
        },
        _ => Err(RqliteError::SqlError("error deserializing response body".to_owned())),
    }
}

} // verus!
