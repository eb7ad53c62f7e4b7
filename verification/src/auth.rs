//! The dashboard session rules: credential check, the session cookie, and
//! the cookie guard.

use vstd::prelude::*;

use crate::text::contains_seq;
use crate::text::str_contains;

verus! {

use vstd::string::StringExecFns;

/// A login form submission.
pub struct AuthPayload {
    pub username: String,
    pub password: String,
}

/// Whether the payload carries the deployment credentials.
pub open spec fn credentials_ok(username: Seq<char>, password: Seq<char>) -> bool {
    username == "propileno"@ && password == "propileno24"@
}

/// Decides a login attempt.
pub fn check_credentials(payload: &AuthPayload) -> (r: bool)
    ensures
        r == credentials_ok(payload.username@, payload.password@),
{
    let user = String::from_str("propileno");
    let pass = String::from_str("propileno24");
    payload.username == user && payload.password == pass
}

/// The `Set-Cookie` value that marks a session as authenticated for an hour.
pub fn session_cookie_value() -> (r: String)
    ensures
        r@ == "lamuralla_auth=valid; Path=/; Max-Age=3600; HttpOnly; SameSite=Strict"@,
{
    String::from_str("lamuralla_auth=valid; Path=/; Max-Age=3600; HttpOnly; SameSite=Strict")
}

/// Whether a request's cookie header carries the authenticated session
/// marker.
pub fn cookie_grants_access(cookie_header: &str) -> (r: bool)
    ensures
        r == contains_seq(cookie_header@, "lamuralla_auth=valid"@),
{
    str_contains(cookie_header, "lamuralla_auth=valid")
}

} // verus!
