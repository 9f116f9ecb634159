//! The mode-A wrapper's rules: which settings it needs, which real CLI it runs, how it reads
//! a failed run, and when it rotates the key and tries again.
use vstd::prelude::*;

use crate::config::WrapConfig;
use crate::provider::Provider;
use crate::text::{
    chars_contain, chars_of, concat, contains, lower, to_ascii_lowercase, trim, trim_end_char,
    trim_end_matches_char, trim_str,
};

verus! {

/// Runs of the real CLI that one `wrap` may make: a run that hits a rate limit or quota is
/// reported and retried with another key, up to this many runs.
pub const MAX_ATTEMPTS: usize = 3;

/// The text of a failed run mentions a rate limit or quota.
pub open spec fn mentions_limit(t: Seq<char>) -> bool {
    ||| contains(t, "402"@)
    ||| contains(t, "429"@)
    ||| contains(t, "rate limit"@)
    ||| contains(t, "rate-limit"@)
    ||| contains(t, "ratelimit"@)
    ||| contains(t, "quota"@)
    ||| contains(t, "credits"@)
    ||| contains(t, "payment required"@)
    ||| contains(t, "too many requests"@)
}

/// The text of a failed run points at a spent quota rather than a rate limit.
pub open spec fn mentions_quota(t: Seq<char>) -> bool {
    ||| contains(t, "402"@)
    ||| contains(t, "quota"@)
    ||| contains(t, "payment required"@)
    ||| contains(t, "credits"@)
}

/// How a failed run is reported, judged on its output ignoring ASCII case: `402` for a spent
/// quota, `429` for a rate limit, and nothing (no retry) when it mentions neither.
pub open spec fn spec_classify_failure(output: Seq<char>) -> Option<Seq<char>> {
    let l = lower(output);
    if !mentions_limit(l) {
        None
    } else if mentions_quota(l) {
        Some("402"@)
    } else {
        Some("429"@)
    }
}

fn has(hay: &Vec<char>, needle: &str) -> (r: bool)
    ensures
        r == contains(hay@, needle@),
{
    let n = chars_of(needle);
    chars_contain(hay, &n)
}

/// The combined output of a run as the wrapper inspects it: stderr, a space, stdout.
pub fn combine_output(stderr: &str, stdout: &str) -> (r: String)
    ensures
        r@ == stderr@ + " "@ + stdout@,
{
    let a = concat(stderr, " ");
    concat(a.as_str(), stdout)
}

/// Every limit marker counts, in any ASCII case: output that contains any of `402`, `429`,
/// `rate limit`, `rate-limit`, `ratelimit`, `quota`, `credits`, `payment required` or
/// `too many requests` is a limit; it is reported `402` when it contains a quota marker
/// (`402`, `quota`, `payment required`, `credits`) and `429` otherwise. Output with none of
/// the markers is not a limit.
pub proof fn lemma_limit_markers(output: Seq<char>)
    ensures
        ({
            let l = lower(output);
            let quota = contains(l, "402"@) || contains(l, "quota"@) || contains(l, "payment required"@)
                || contains(l, "credits"@);
            let rate = contains(l, "429"@) || contains(l, "rate limit"@) || contains(l, "rate-limit"@)
                || contains(l, "ratelimit"@) || contains(l, "too many requests"@);
            &&& quota ==> spec_classify_failure(output) == Some("402"@)
            &&& (rate && !quota) ==> spec_classify_failure(output) == Some("429"@)
            &&& (!rate && !quota) ==> spec_classify_failure(output) is None
            &&& contains(l, "too many requests"@) ==> spec_classify_failure(output) is Some
            &&& contains(l, "429"@) ==> spec_classify_failure(output) is Some
            &&& contains(l, "rate limit"@) ==> spec_classify_failure(output) is Some
            &&& contains(l, "rate-limit"@) ==> spec_classify_failure(output) is Some
            &&& contains(l, "ratelimit"@) ==> spec_classify_failure(output) is Some
        }),
{
}

/// Classifies a failed run by its combined output.
pub fn classify_failure(output: &str) -> (r: Option<&'static str>)
    ensures
        r is Some <==> spec_classify_failure(output@) is Some,
        r matches Some(x) ==> x@ == spec_classify_failure(output@)->0,
{
    let l = to_ascii_lowercase(output);
    let v = chars_of(l.as_str());
    let limit = has(&v, "402") || has(&v, "429") || has(&v, "rate limit") || has(&v, "rate-limit")
        || has(&v, "ratelimit") || has(&v, "quota") || has(&v, "credits") || has(&v, "payment required")
        || has(&v, "too many requests");
    if !limit {
        None
    } else if has(&v, "402") || has(&v, "quota") || has(&v, "payment required") || has(&v, "credits") {
        Some("402")
    } else {
        Some("429")
    }
}

/// What the wrapper does next.
pub enum WrapStep {
    /// The first lease failed: fail with the lease error itself.
    FailWithLeaseError,
    /// A later lease failed: fail with `no available key (lease failed: ...)`.
    FailNoKey,
    /// The run succeeded: report the key `ok` and finish.
    ReportOkAndFinish,
    /// The run failed for another reason: fail with the CLI's exit code, without a report
    /// and without burning another key.
    FailNonLimit,
    /// The run hit a limit: report it and run again with another key.
    ReportAndRetry { report: &'static str },
    /// The run hit a limit on the last attempt: report it and give up.
    ReportAndGiveUp { report: &'static str },
}

/// Decides after the lease of attempt `attempt` (counted from 1) failed.
pub fn wrap_on_lease_failure(attempt: usize) -> (r: WrapStep)
    requires
        1 <= attempt <= MAX_ATTEMPTS,
    ensures
        attempt == 1 ==> r is FailWithLeaseError,
        attempt > 1 ==> r is FailNoKey,
{
    if attempt == 1 {
        WrapStep::FailWithLeaseError
    } else {
        WrapStep::FailNoKey
    }
}

/// Decides after the real CLI of attempt `attempt` exited, successfully or with the combined
/// output `output`.
pub fn wrap_on_exit(attempt: usize, success: bool, output: &str) -> (r: WrapStep)
    requires
        1 <= attempt <= MAX_ATTEMPTS,
    ensures
        success ==> r is ReportOkAndFinish,
        !success && spec_classify_failure(output@) is None ==> r is FailNonLimit,
        !success && spec_classify_failure(output@) is Some && attempt < MAX_ATTEMPTS ==> (r matches WrapStep::ReportAndRetry { report } && report@ == spec_classify_failure(output@)->0),
        !success && spec_classify_failure(output@) is Some && attempt == MAX_ATTEMPTS ==> (r matches WrapStep::ReportAndGiveUp { report } && report@ == spec_classify_failure(output@)->0),
{
    if success {
        return WrapStep::ReportOkAndFinish;
    }
    match classify_failure(output) {
        None => WrapStep::FailNonLimit,
        Some(report) => if attempt < MAX_ATTEMPTS {
            WrapStep::ReportAndRetry { report }
        } else {
            WrapStep::ReportAndGiveUp { report }
        },
    }
}

/// Where the wrapper reaches the control plane.
pub struct WrapTarget {
    /// The control-plane base URL without trailing slashes.
    pub base: String,
    pub token: String,
}

/// Why the wrapper cannot start.
pub enum WrapSetupError {
    /// `wrap.vps_url` is not set.
    MissingVpsUrl,
    /// `wrap.control_token` is not set.
    MissingControlToken,
}

impl WrapSetupError {
    /// The message the wrapper stops with.
    pub fn message(&self) -> (r: String)
        ensures
            *self is MissingVpsUrl ==> r@ == "wrap.vps_url not set in config"@,
            *self is MissingControlToken ==> r@ == "wrap.control_token not set in config"@,
    {
        match self {
            WrapSetupError::MissingVpsUrl => "wrap.vps_url not set in config".to_owned(),
            WrapSetupError::MissingControlToken => "wrap.control_token not set in config".to_owned(),
        }
    }
}

/// The control plane the wrapper talks to: `wrap.vps_url` (trailing slashes removed) and
/// `wrap.control_token`, both required, the URL checked first.
pub fn wrap_target(cfg: &WrapConfig) -> (r: Result<WrapTarget, WrapSetupError>)
    ensures
        cfg.vps_url is None ==> r matches Err(WrapSetupError::MissingVpsUrl),
        cfg.vps_url is Some && cfg.control_token is None ==> r matches Err(WrapSetupError::MissingControlToken),
        r matches Ok(t) ==> cfg.vps_url is Some && cfg.control_token is Some
            && t.base@ == trim_end_char(cfg.vps_url->0@, '/') && t.token@ == cfg.control_token->0@,
        cfg.vps_url is Some && cfg.control_token is Some ==> r is Ok,
{
    match &cfg.vps_url {
        None => Err(WrapSetupError::MissingVpsUrl),
        Some(url) => match &cfg.control_token {
            None => Err(WrapSetupError::MissingControlToken),
            Some(token) => Ok(WrapTarget { base: trim_end_matches_char(url.as_str(), '/'), token: token.clone() }),
        },
    }
}

/// The real CLI path configured for a provider, if any.
pub fn configured_cli_path(p: Provider, cfg: &WrapConfig) -> (r: Option<String>)
    ensures
        p == Provider::Firecrawl ==> r == cfg.cli_firecrawl_path,
        p == Provider::Tavily ==> r == cfg.cli_tvly_path,
{
    match p {
        Provider::Firecrawl => cfg.cli_firecrawl_path.clone(),
        Provider::Tavily => cfg.cli_tvly_path.clone(),
    }
}

/// The real CLI found by `which`: its trimmed output, or nothing when that is empty.
pub fn which_result(stdout: &str) -> (r: Option<String>)
    ensures
        trim(stdout@).len() == 0 ==> r is None,
        trim(stdout@).len() > 0 ==> (r matches Some(p) && p@ == trim(stdout@)),
{
    let t = trim_str(stdout);
    if t.as_str().is_empty() {
        None
    } else {
        Some(t)
    }
}

} // verus!
