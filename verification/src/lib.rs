//! A client library for rqlite, a distributed SQL database reached over
//! HTTP(S) with JSON request and response bodies.
//!
//! The crate models the protocol layer of such a client: connection
//! settings, request construction (headers, basic authentication, JSON
//! bodies), decoding of the JSON responses into typed rows, and the
//! cluster operations (node listing, readiness, node removal). The
//! transport itself (sockets, TLS, HTTP framing) is left to the caller;
//! every function here goes from plain values to plain values, with its
//! behaviour stated in its contract.

mod cluster;
mod connect;
mod cursor;
mod error;
mod json;
mod num;
mod row;
mod types;
mod value;

pub use cluster::{nodes_from_body, nodes_request, ready_request, remove_request, Node};
pub use connect::{check_auth, status_success, ConnectOptions, RequestPlan, Scheme};
pub use cursor::{execute_body, execute_request, Cursor};
pub use error::RqliteError;
pub use json::{json_decode, json_encode};
pub use row::Row;
pub use types::{get_type, parse_vec_types, Type};
pub use value::{JsonVal, JsonValue};
