//! The background usage refresh: which keys are queried, and what a usage reply does to a key.
use vstd::prelude::*;

use crate::keys::{after_mark, leasable, usable_status, KeyRowView};
use crate::provider::{parse_provider, spec_real_base_url, spec_usage_path, Provider};
use crate::text::concat;

verus! {

/// The integer that the JSON text `body` holds at `body[outer][inner]`, as serde_json reads it:
/// `None` when `body` is not JSON, either member is missing, or the value is not an integer
/// that fits in an `i64`.
pub uninterp spec fn json_int_member(body: Seq<char>, outer: Seq<char>, inner: Seq<char>) -> Option<i64>;

/// Reads `body[outer][inner]` as an `i64` with serde_json (`serde_json::from_str` into a
/// `serde_json::Value`, then `Value::get` twice and `Value::as_i64`). What it returns is
/// named by `json_int_member`, a function of the three texts alone.
#[verifier::external_body]
fn json_i64_member(body: &str, outer: &str, inner: &str) -> (r: Option<i64>)
    ensures
        r == json_int_member(body@, outer@, inner@),
{
    let v: serde_json::Value = serde_json::from_str(body).ok()?;
    v.get(outer)?.get(inner)?.as_i64()
}

/// The remaining credits that a usage reply reports: firecrawl's reply carries them at
/// `data.remaining_credits`; tavily has no usage reply.
pub open spec fn spec_remaining(body: Seq<char>, p: Provider) -> Option<i64> {
    match p {
        Provider::Firecrawl => json_int_member(body, "data"@, "remaining_credits"@),
        Provider::Tavily => None,
    }
}

/// The remaining credits in a usage reply `body` from provider `p`.
pub fn parse_remaining(body: &str, p: Provider) -> (r: Option<i64>)
    ensures
        r == spec_remaining(body@, p),
{
    match p {
        Provider::Firecrawl => json_i64_member(body, "data", "remaining_credits"),
        Provider::Tavily => None,
    }
}

/// The usage endpoint to query for a key of the stored provider name `provider`, if any:
/// the provider must be known and have a usage path.
pub open spec fn spec_usage_url(provider: Seq<char>) -> Option<Seq<char>> {
    match parse_provider(provider) {
        Some(p) => match spec_usage_path(p) {
            Some(path) => Some(spec_real_base_url(p) + path),
            None => None,
        },
        None => None,
    }
}

/// The usage endpoint URL for a key whose stored provider name is `provider`.
pub fn usage_query_url(provider: &str) -> (r: Option<String>)
    ensures
        r is Some <==> spec_usage_url(provider@) is Some,
        r is Some ==> r->0@ == spec_usage_url(provider@)->0,
{
    match Provider::from_str(provider) {
        None => None,
        Some(p) => match p.usage_path() {
            None => None,
            Some(path) => Some(concat(p.real_base_url(), path)),
        },
    }
}

/// A new status, cooldown end and last error for a key.
pub struct UsageMark {
    pub status: &'static str,
    pub cooldown_until: Option<i64>,
    pub error: &'static str,
}

/// What a usage query's HTTP status does to the key.
pub enum UsageStep {
    /// Set the key's status, cooldown and last error.
    Mark(UsageMark),
    /// The query failed otherwise: leave the key as it is.
    Skip,
    /// The query succeeded: read the reply for the remaining credits.
    ReadBody,
}

/// `code` is a 2xx HTTP status.
pub open spec fn is_success(code: u16) -> bool {
    200 <= code <= 299
}

/// Decides on the HTTP status of a usage query made at `now`: 401 marks the key
/// `auth-failed`, 429 rate-limits it for `rl_cooldown_secs`, any other non-2xx status leaves
/// it alone, and a 2xx status means the reply is to be read.
pub fn usage_on_status(code: u16, now: i64, rl_cooldown_secs: i64) -> (r: UsageStep)
    requires
        code == 429 ==> i64::MIN <= now + rl_cooldown_secs <= i64::MAX,
    ensures
        code == 401 ==> r == UsageStep::Mark(UsageMark { status: "auth-failed", cooldown_until: None, error: "usage:401" }),
        code == 429 ==> r == UsageStep::Mark(
            UsageMark { status: "rate-limited", cooldown_until: Some((now + rl_cooldown_secs) as i64), error: "usage:429" },
        ),
        code != 401 && code != 429 && !is_success(code) ==> r is Skip,
        code != 401 && code != 429 && is_success(code) ==> r is ReadBody,
{
    if code == 401 {
        UsageStep::Mark(UsageMark { status: "auth-failed", cooldown_until: None, error: "usage:401" })
    } else if code == 429 {
        UsageStep::Mark(UsageMark { status: "rate-limited", cooldown_until: Some(now + rl_cooldown_secs), error: "usage:429" })
    } else if !(200 <= code && code <= 299) {
        UsageStep::Skip
    } else {
        UsageStep::ReadBody
    }
}

/// What a successful usage reply does to the key: its remaining credits are recorded, and a
/// key with no credits left is marked exhausted.
pub struct CreditsUpdate {
    pub credits: i64,
    /// When the key has no credits left: it becomes `exhausted` for the quota cooldown, with
    /// the last error `usage:0 credits`.
    pub exhausted: Option<UsageMark>,
}

/// Records `remaining` credits read at `now`; zero credits exhausts the key for
/// `quota_cooldown_secs`.
pub fn usage_on_credits(remaining: i64, now: i64, quota_cooldown_secs: i64) -> (r: CreditsUpdate)
    requires
        remaining == 0 ==> i64::MIN <= now + quota_cooldown_secs <= i64::MAX,
    ensures
        r.credits == remaining,
        remaining == 0 ==> r.exhausted == Some(
            UsageMark { status: "exhausted", cooldown_until: Some((now + quota_cooldown_secs) as i64), error: "usage:0 credits" },
        ),
        remaining != 0 ==> r.exhausted is None,
{
    if remaining == 0 {
        CreditsUpdate {
            credits: remaining,
            exhausted: Some(UsageMark { status: "exhausted", cooldown_until: Some(now + quota_cooldown_secs), error: "usage:0 credits" }),
        }
    } else {
        CreditsUpdate { credits: remaining, exhausted: None }
    }
}

/// Tavily keys are never queried for usage: tavily has no usage endpoint and relies on
/// passive rate-limit detection.
pub proof fn lemma_tavily_not_queried(provider: Seq<char>)
    requires
        parse_provider(provider) == Some(Provider::Tavily),
    ensures
        spec_usage_url(provider) is None,
{
}

/// A key whose usage query is refused with 401 is never leased again.
pub proof fn lemma_unauthorized_key_retired(k: KeyRowView, p: Provider, t: int)
    ensures
        !leasable(after_mark(k, "auth-failed"@, None, "usage:401"@), p, t),
{
    assert(!usable_status("auth-failed"@));
}

/// A key whose usage shows no credits left is not leased before its quota cooldown ends.
pub proof fn lemma_spent_key_waits(k: KeyRowView, p: Provider, now: i64, quota_cooldown_secs: i64, t: int)
    requires
        i64::MIN <= now + quota_cooldown_secs <= i64::MAX,
        t <= now + quota_cooldown_secs,
    ensures
        !leasable(after_mark(k, "exhausted"@, Some((now + quota_cooldown_secs) as i64), "usage:0 credits"@), p, t),
{
}

} // verus!
