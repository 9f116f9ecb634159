//! Who may call what: the control-plane token, user bearer tokens, admin login and sessions.
use vstd::prelude::*;

use crate::text::{concat, starts_with, str_eq, strip_prefix};

verus! {

/// An HTTP error answer: a status code and a message.
pub struct ApiError {
    pub status: u16,
    pub message: String,
}

/// The scheme prefix of a bearer `Authorization` header.
pub open spec fn bearer_prefix() -> Seq<char> {
    "Bearer "@
}

/// The token carried by an `Authorization` header value, if it is a bearer one.
pub open spec fn spec_bearer(auth: Seq<char>) -> Option<Seq<char>> {
    if starts_with(auth, bearer_prefix()) {
        Some(auth.skip(7))
    } else {
        None
    }
}

/// The text of an optional header; a missing header reads as empty.
pub open spec fn header_text(auth: Option<&str>) -> Seq<char> {
    match auth {
        Some(a) => a@,
        None => Seq::<char>::empty(),
    }
}

/// The bearer token of an optional `Authorization` header.
pub open spec fn spec_header_bearer(auth: Option<&str>) -> Option<Seq<char>> {
    match auth {
        Some(a) => spec_bearer(a@),
        None => None,
    }
}

proof fn lemma_bearer_prefix_len()
    ensures
        bearer_prefix().len() == 7,
{
    reveal_strlit("Bearer ");
}

fn api_error(status: u16, message: &str) -> (r: ApiError)
    ensures
        r.status == status,
        r.message@ == message@,
{
    ApiError { status, message: message.to_owned() }
}

/// The bearer token of an `Authorization` header value (absent when there is no header,
/// or when it is not valid visible ASCII).
pub fn bearer_token(auth: Option<&str>) -> (r: Option<String>)
    ensures
        r is Some <==> spec_header_bearer(auth) is Some,
        r matches Some(t) ==> t@ == spec_header_bearer(auth)->0,
{
    proof {
        lemma_bearer_prefix_len();
    }
    match auth {
        None => None,
        Some(a) => strip_prefix(a, "Bearer "),
    }
}

/// The header value that carries `token` as a bearer token.
pub fn bearer_header(token: &str) -> (r: String)
    ensures
        r@ == bearer_prefix() + token@,
{
    concat("Bearer ", token)
}

/// A bearer header built for a token carries exactly that token.
pub proof fn lemma_bearer_round_trip(token: Seq<char>)
    ensures
        spec_bearer(bearer_prefix() + token) == Some(token),
{
    lemma_bearer_prefix_len();
    assert((bearer_prefix() + token).take(7) =~= bearer_prefix());
    assert((bearer_prefix() + token).skip(7) =~= token);
}

/// A control-plane request (`/lease`, `/report`) is admitted when the server has a control
/// token and the `Authorization` header is exactly `Bearer <token>`. Without a configured
/// token every request fails with 500; a wrong or missing header fails with 401.
pub fn check_control_token(configured: Option<&str>, auth: Option<&str>) -> (r: Result<(), ApiError>)
    ensures
        configured is None ==> (r matches Err(e) && e.status == 500 && e.message@ == "server has no control_token configured"@),
        configured is Some ==> (r is Ok <==> header_text(auth) == bearer_prefix() + configured->0@),
        configured is Some ==> (r matches Err(e) ==> e.status == 401 && e.message@ == "invalid control token"@),
{
    match configured {
        None => Err(api_error(500, "server has no control_token configured")),
        Some(t) => {
            let expected = bearer_header(t);
            let given = match auth {
                Some(a) => a,
                None => "",
            };
            proof {
                reveal_strlit("");
                assert(""@.len() == 0);
                assert(given@ =~= header_text(auth));
            }
            if str_eq(given, expected.as_str()) {
                Ok(())
            } else {
                Err(api_error(401, "invalid control token"))
            }
        },
    }
}

/// The user token of a proxied request: the bearer token of its `Authorization` header,
/// or 401 `missing bearer token`.
pub fn proxy_user_token(auth: Option<&str>) -> (r: Result<String, ApiError>)
    ensures
        r is Ok <==> spec_header_bearer(auth) is Some,
        r matches Ok(t) ==> t@ == spec_header_bearer(auth)->0,
        r matches Err(e) ==> e.status == 401 && e.message@ == "missing bearer token"@,
{
    match bearer_token(auth) {
        Some(t) => Ok(t),
        None => Err(api_error(401, "missing bearer token")),
    }
}

/// The answer to a user token lookup: a token found valid admits the proxied request,
/// anything else (an unknown token, or a failed lookup) is 401 `invalid user token`.
pub fn user_token_verdict(valid: bool) -> (r: Result<(), ApiError>)
    ensures
        valid ==> r is Ok,
        !valid ==> (r matches Err(e) && e.status == 401 && e.message@ == "invalid user token"@),
{
    if valid {
        Ok(())
    } else {
        Err(api_error(401, "invalid user token"))
    }
}

/// The admin session token of a WebUI API request: the bearer token of its
/// `Authorization` header, or 401 `missing bearer session`.
pub fn admin_session_token(auth: Option<&str>) -> (r: Result<String, ApiError>)
    ensures
        r is Ok <==> spec_header_bearer(auth) is Some,
        r matches Ok(t) ==> t@ == spec_header_bearer(auth)->0,
        r matches Err(e) ==> e.status == 401 && e.message@ == "missing bearer session"@,
{
    match bearer_token(auth) {
        Some(t) => Ok(t),
        None => Err(api_error(401, "missing bearer session")),
    }
}

/// The answer to an admin session lookup: a session found valid admits the request,
/// anything else is 401 `invalid or expired session`.
pub fn admin_session_verdict(valid: bool) -> (r: Result<(), ApiError>)
    ensures
        valid ==> r is Ok,
        !valid ==> (r matches Err(e) && e.status == 401 && e.message@ == "invalid or expired session"@),
{
    if valid {
        Ok(())
    } else {
        Err(api_error(401, "invalid or expired session"))
    }
}

/// An admin login with `password` against the configured admin password: refused with 403
/// when none is configured, with 401 when it differs, and admitted when it matches.
pub fn check_login(configured: Option<&str>, password: &str) -> (r: Result<(), ApiError>)
    ensures
        configured is None ==> (r matches Err(e) && e.status == 403 && e.message@ == "admin login disabled (no admin.password set)"@),
        configured matches Some(c) ==> (r is Ok <==> c@ == password@),
        configured matches Some(c) ==> (r matches Err(e) ==> e.status == 401 && e.message@ == "wrong password"@),
{
    match configured {
        None => Err(api_error(403, "admin login disabled (no admin.password set)")),
        Some(c) => if str_eq(c, password) {
            Ok(())
        } else {
            Err(api_error(401, "wrong password"))
        },
    }
}

/// The control token check admits exactly the header that the wrapper sends for the token.
pub proof fn lemma_control_token_admits_own_header(t: Seq<char>, auth: Seq<char>)
    ensures
        auth == bearer_prefix() + t <==> spec_bearer(auth) == Some(t),
{
    lemma_bearer_prefix_len();
    if spec_bearer(auth) == Some(t) {
        assert(auth =~= auth.take(7) + auth.skip(7));
    }
    lemma_bearer_round_trip(t);
}

} // verus!
