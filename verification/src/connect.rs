use crate::error::RqliteError;
use crate::num::{dec_rep, u64_to_dec};
use vstd::prelude::*;
use vstd::string::*;

verus! {

/// The connection scheme: plain HTTP or TLS.
#[derive(Clone, Copy, Debug, PartialEq, Eq, Structural)]
pub enum Scheme {
    HTTP,
    HTTPS,
}

/// Connection settings: scheme, host, port, optional basic-auth
/// credentials and the insecure-TLS escape hatch. Built with the
/// chained setters below and immutable once a connection is made.
#[derive(Clone, Debug)]
pub struct ConnectOptions {
    pub scheme: Scheme,
    pub host: String,
    pub port: u16,
    pub user: Option<String>,
    pub pass: Option<String>,
    pub accept_invalid_cert: bool,
}

/// The base64 text of the UTF-8 bytes of a credential text; determined
/// by the characters alone.
pub uninterp spec fn base64_of(s: Seq<char>) -> Seq<char>;

/// Relies on base64::encode: the standard base64 encoding of the
/// text's UTF-8 bytes.
#[verifier::external_body]
fn b64_encode(s: &str) -> (r: String)
    ensures
        r@ == base64_of(s@),
{
    base64::encode(s)
}

/// The value of the `Host` header: `host:port`.
pub open spec fn host_header(host: Seq<char>, port: u16) -> Seq<char> {
    host + ":"@ + dec_rep(port as nat)
}

/// The value of the `Authorization` header: the basic-auth credential
/// `user:pass`, base64-encoded.
pub open spec fn basic_auth(user: Seq<char>, pass: Seq<char>) -> Seq<char> {
    "Basic "@ + base64_of(user + ":"@ + pass)
}

/// The two headers every request carries.
pub open spec fn base_headers_match(o: ConnectOptions, h: Seq<(String, String)>) -> bool {
    &&& h.len() >= 2
    &&& h[0].0@ == "Host"@
    &&& h[0].1@ == host_header(o.host@, o.port)
    &&& h[1].0@ == "Content-Type"@
    &&& h[1].1@ == "application/json"@
}

/// The full header list of a request under the given settings: `Host`
/// and `Content-Type` always, and `Authorization` exactly when both
/// credentials are configured.
pub open spec fn headers_match(o: ConnectOptions, h: Seq<(String, String)>) -> bool {
    &&& base_headers_match(o, h)
    &&& if o.user is Some && o.pass is Some {
        &&& h.len() == 3
        &&& h[2].0@ == "Authorization"@
        &&& h[2].1@ == basic_auth(o.user->0@, o.pass->0@)
    } else {
        h.len() == 2
    }
}

impl ConnectOptions {
    /// Settings for a plain HTTP connection to `host:port`, with no
    /// credentials and certificate validation on.
    pub fn new(host: &str, port: u16) -> (r: ConnectOptions)
        ensures
            r.scheme == Scheme::HTTP,
            r.host@ == host@,
            r.port == port,
            r.user is None,
            r.pass is None,
            r.accept_invalid_cert == false,
    {
        ConnectOptions {
            scheme: Scheme::HTTP,
            host: host.to_owned(),
            port,
            user: None,
            pass: None,
            accept_invalid_cert: false,
        }
    }

    /// Set the connection scheme.
    pub fn scheme(self, scheme: Scheme) -> (r: ConnectOptions)
        ensures
            r.scheme == scheme,
            r.host == self.host,
            r.port == self.port,
            r.user == self.user,
            r.pass == self.pass,
            r.accept_invalid_cert == self.accept_invalid_cert,
    {
        ConnectOptions { scheme, ..self }
    }

    /// Set the user for basic authentication.
    pub fn user(self, user: &str) -> (r: ConnectOptions)
        ensures
            r.user matches Some(u) && u@ == user@,
            r.scheme == self.scheme,
            r.host == self.host,
            r.port == self.port,
            r.pass == self.pass,
            r.accept_invalid_cert == self.accept_invalid_cert,
    {
        ConnectOptions { user: Some(user.to_owned()), ..self }
    }

    /// Set the password for basic authentication.
    pub fn pass(self, pass: &str) -> (r: ConnectOptions)
        ensures
            r.pass matches Some(p) && p@ == pass@,
            r.scheme == self.scheme,
            r.host == self.host,
            r.port == self.port,
            r.user == self.user,
            r.accept_invalid_cert == self.accept_invalid_cert,
    {
        ConnectOptions { pass: Some(pass.to_owned()), ..self }
    }

    /// Accept invalid TLS certificates (and hostnames). Opt-in only:
    /// never the default.
    pub fn accept_invalid_cert(self, accept: bool) -> (r: ConnectOptions)
        ensures
            r.accept_invalid_cert == accept,
            r.scheme == self.scheme,
            r.host == self.host,
            r.port == self.port,
            r.user == self.user,
            r.pass == self.pass,
    {
        ConnectOptions { accept_invalid_cert: accept, ..self }
    }

    /// The authority the transport dials and the `Host` header names:
    /// `host:port`.
    pub fn authority(&self) -> (r: String)
        ensures
            r@ == host_header(self.host@, self.port),
    {
        let n = u64_to_dec(self.port as u64);
        let r = self.host.clone().concat(":").concat(n.as_str());
        proof {
            assert(r@ =~= host_header(self.host@, self.port));
        }
        r
    }

    /// The `Host` and `Content-Type` headers every request carries.
    pub fn base_headers(&self) -> (h: Vec<(String, String)>)
        ensures
            base_headers_match(*self, h@),
            h@.len() == 2,
    {
        let mut h: Vec<(String, String)> = Vec::new();
        h.push(("Host".to_owned(), self.authority()));
        h.push(("Content-Type".to_owned(), "application/json".to_owned()));
        h
    }

    /// Append the `Authorization` header when both user and password
    /// are configured; with either absent the list is unchanged (no
    /// partial authentication).
    pub fn auth(&self, headers: Vec<(String, String)>) -> (r: Vec<(String, String)>)
        ensures
            (self.user is Some && self.pass is Some) ==> {
                &&& r@.len() == headers@.len() + 1
                &&& r@.subrange(0, headers@.len() as int) == headers@
                &&& r@.last().0@ == "Authorization"@
                &&& r@.last().1@ == basic_auth(self.user->0@, self.pass->0@)
            },
            !(self.user is Some && self.pass is Some) ==> r == headers,
    {
        let mut r = headers;
        match (&self.user, &self.pass) {
            (Some(u), Some(p)) => {
                let cred = u.clone().concat(":").concat(p.as_str());
                proof {
                    assert(cred@ =~= self.user->0@ + ":"@ + self.pass->0@);
                }
                let val = "Basic ".to_owned().concat(b64_encode(cred.as_str()).as_str());
                proof {
                    assert(val@ =~= basic_auth(self.user->0@, self.pass->0@));
                }
                r.push(("Authorization".to_owned(), val));
                proof {
                    assert(r@.subrange(0, r@.len() - 1) =~= r@.drop_last());
                }
            },
            _ => {},
        }
        r
    }

    /// The headers of a request under these settings.
    pub fn request_headers(&self) -> (h: Vec<(String, String)>)
        ensures
            headers_match(*self, h@),
    {
        let base = self.base_headers();
        let h = self.auth(base);
        proof {
            if self.user is Some && self.pass is Some {
                assert(h@[0] == h@.subrange(0, 2)[0]);
                assert(h@[1] == h@.subrange(0, 2)[1]);
            }
        }
        h
    }
}

/// One HTTP request, ready for a transport to carry: method, path,
/// headers, and an optional JSON body. The transport must send exactly
/// these and nothing else.
#[derive(Debug)]
pub struct RequestPlan {
    pub method: String,
    pub path: String,
    pub headers: Vec<(String, String)>,
    pub body: Option<String>,
}

/// A plan that carries the given method and path with the settings'
/// headers.
pub open spec fn plan_matches(
    p: RequestPlan,
    o: ConnectOptions,
    method: Seq<char>,
    path: Seq<char>,
) -> bool {
    &&& p.method@ == method
    &&& p.path@ == path
    &&& headers_match(o, p.headers@)
}

/// Classify a response status before anything else: a 401 is an
/// authentication failure regardless of the body; every other status
/// passes through for the caller to interpret.
pub fn check_auth(status: u16) -> (r: Result<(), RqliteError>)
    ensures
        status == 401 ==> r == Err::<(), RqliteError>(RqliteError::AuthError),
        status != 401 ==> r == Ok::<(), RqliteError>(()),
{
    if status == 401 {
        Err(RqliteError::AuthError)
    } else {
        Ok(())
    }
}

/// Interpret the status of a readiness or removal response: a 401 is
/// an authentication failure; otherwise the call succeeded exactly
/// when the status is 200, and any other status is a plain `false`,
/// not an error.
pub fn status_success(status: u16) -> (r: Result<bool, RqliteError>)
    ensures
        status == 401 ==> r == Err::<bool, RqliteError>(RqliteError::AuthError),
        status != 401 ==> r == Ok::<bool, RqliteError>(status == 200),
{
    match check_auth(status) {
        Ok(_) => Ok(status == 200),
        Err(e) => Err(e),
    }
}

} // verus!
