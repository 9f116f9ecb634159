//! Random identifiers: user tokens, admin session tokens and lease ids.
use vstd::prelude::*;

use crate::text::concat;

verus! {

/// A lower-case hexadecimal digit.
pub open spec fn is_lower_hex(c: char) -> bool {
    ('0' <= c && c <= '9') || ('a' <= c && c <= 'f')
}

/// The digit that carries an RFC 4122 variant: the top two bits of its nibble are `10`.
pub open spec fn is_rfc4122_variant_digit(c: char) -> bool {
    c == '8' || c == '9' || c == 'a' || c == 'b'
}

/// The simple text form of a UUID: 32 lower-case hexadecimal digits.
pub open spec fn simple_uuid_shape(s: Seq<char>) -> bool {
    s.len() == 32 && forall|i: int| 0 <= i < 32 ==> is_lower_hex(#[trigger] s[i])
}

/// The simple text form of a random (version 4, RFC 4122 variant) UUID: the version digit
/// (the 13th) is `4` and the variant digit (the 17th) is one of `8`, `9`, `a`, `b`.
pub open spec fn simple_v4_shape(s: Seq<char>) -> bool {
    &&& simple_uuid_shape(s)
    &&& s[12] == '4'
    &&& is_rfc4122_variant_digit(s[16])
}

/// The hyphenated text form of a UUID: 8-4-4-4-12 lower-case hexadecimal digits.
pub open spec fn hyphenated_uuid_shape(s: Seq<char>) -> bool {
    &&& s.len() == 36
    &&& forall|i: int|
        0 <= i < 36 ==> if i == 8 || i == 13 || i == 18 || i == 23 {
            #[trigger] s[i] == '-'
        } else {
            is_lower_hex(s[i])
        }
}

/// The hyphenated text form of a random (version 4, RFC 4122 variant) UUID: the version
/// digit (the 15th character) is `4` and the variant digit (the 20th) is one of `8`, `9`,
/// `a`, `b`.
pub open spec fn hyphenated_v4_shape(s: Seq<char>) -> bool {
    &&& hyphenated_uuid_shape(s)
    &&& s[14] == '4'
    &&& is_rfc4122_variant_digit(s[19])
}

/// The prefix of every user token.
pub open spec fn user_token_prefix() -> Seq<char> {
    "sp-"@
}

/// A user token: `sp-` followed by a UUID in simple form.
pub open spec fn user_token_shape(s: Seq<char>) -> bool {
    &&& s.len() == 35
    &&& s.take(3) == user_token_prefix()
    &&& simple_v4_shape(s.skip(3))
}

/// A fresh random UUID in simple form (`uuid::Uuid::new_v4().simple().to_string()`).
/// `new_v4` sets the version nibble to 4 and the variant bits to RFC 4122, and the simple
/// form writes the 16 bytes as 32 lower-case hexadecimal digits; the other digits are
/// random and left open.
#[verifier::external_body]
fn new_uuid_simple() -> (r: String)
    ensures
        simple_v4_shape(r@),
{
    uuid::Uuid::new_v4().simple().to_string()
}

/// A fresh random UUID in hyphenated form (`uuid::Uuid::new_v4().to_string()`). `new_v4`
/// sets the version nibble to 4 and the variant bits to RFC 4122, and the hyphenated form
/// writes the bytes as 8-4-4-4-12 lower-case hexadecimal digits; the other digits are
/// random and left open.
#[verifier::external_body]
fn new_uuid_hyphenated() -> (r: String)
    ensures
        hyphenated_v4_shape(r@),
{
    uuid::Uuid::new_v4().to_string()
}

/// The user token made from a UUID in simple form: `sp-` followed by it.
pub fn user_token_from(uuid_simple: &str) -> (r: String)
    ensures
        r@ == user_token_prefix() + uuid_simple@,
{
    concat("sp-", uuid_simple)
}

/// A fresh user token, `sp-` followed by a random UUID in simple form.
pub fn new_user_token() -> (r: String)
    ensures
        user_token_shape(r@),
{
    let u = new_uuid_simple();
    let r = user_token_from(u.as_str());
    proof {
        reveal_strlit("sp-");
        assert(r@.take(3) =~= user_token_prefix());
        assert(r@.skip(3) =~= u@);
    }
    r
}

/// A fresh admin session token: a random UUID in simple form.
pub fn new_session_token() -> (r: String)
    ensures
        simple_v4_shape(r@),
{
    new_uuid_simple()
}

/// A fresh lease id: a random UUID in hyphenated form.
pub fn new_lease_id() -> (r: String)
    ensures
        hyphenated_v4_shape(r@),
{
    new_uuid_hyphenated()
}

/// An admin session handed out at login.
pub struct AdminSession {
    pub token: String,
    pub expires_at: i64,
}

/// A new admin session created at `now` that lasts `ttl_secs` seconds.
pub fn new_admin_session(now: i64, ttl_secs: i64) -> (r: AdminSession)
    requires
        i64::MIN <= now + ttl_secs <= i64::MAX,
    ensures
        simple_v4_shape(r.token@),
        r.expires_at == now + ttl_secs,
{
    AdminSession { token: new_session_token(), expires_at: now + ttl_secs }
}

/// An admin session that expires at `expires_at` is still valid at `now`.
pub fn session_active(expires_at: i64, now: i64) -> (r: bool)
    ensures
        r == (expires_at > now),
{
    expires_at > now
}

} // verus!
