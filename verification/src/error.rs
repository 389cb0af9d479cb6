use vstd::prelude::*;

verus! {

/// The error taxonomy of the client.
///
/// - `Connection`: transport, handshake or send failures, including a dead
///   background driver; recoverable by reconnecting.
/// - `AuthError`: the remote node answered with HTTP status 401.
/// - `DataSer`: a JSON encode or decode failure, carrying the underlying
///   message; also covers unknown declared column types and out-of-bounds
///   row access.
/// - `SqlError`: a response whose shape is not the expected one, or a
///   statement error reported by the remote node.
#[derive(Debug, Clone, PartialEq, Eq)]
pub enum RqliteError {
    Connection(String),
    AuthError,
    DataSer(String),
    SqlError(String),
}

/// The message of the shape error for a response body that is not of
/// the expected JSON shape.
pub open spec fn deser_msg() -> Seq<char> {
    "error deserializing response body"@
}

impl RqliteError {
    /// The error's message text.
    pub fn message(&self) -> (r: String)
        ensures
            r@ == self.spec_message(),
    {
        match self {
            RqliteError::Connection(m) => m.clone(),
            RqliteError::AuthError => "authentication failed".to_owned(),
            RqliteError::DataSer(m) => m.clone(),
            RqliteError::SqlError(m) => m.clone(),
        }
    }

    /// What `message` returns for each variant.
    pub open spec fn spec_message(&self) -> Seq<char> {
        match self {
            RqliteError::Connection(m) => m@,
            RqliteError::AuthError => "authentication failed"@,
            RqliteError::DataSer(m) => m@,
            RqliteError::SqlError(m) => m@,
        }
    }
}

} // verus!
