//! The search providers whose CLIs are proxied, and their fixed endpoints.
use vstd::prelude::*;

use crate::text::{lower, str_eq, to_ascii_lowercase};

verus! {

/// A supported search provider whose CLI we proxy for.
#[derive(Debug, Clone, Copy, PartialEq, Eq, Structural, Hash)]
pub enum Provider {
    Firecrawl,
    Tavily,
}

/// The provider's lower-case name, as it is displayed and stored.
pub open spec fn provider_name(p: Provider) -> Seq<char> {
    match p {
        Provider::Firecrawl => "firecrawl"@,
        Provider::Tavily => "tavily"@,
    }
}

/// Which provider a user-typed name denotes, ignoring ASCII case; `tvly` is an alias of tavily.
pub open spec fn parse_provider(s: Seq<char>) -> Option<Provider> {
    let l = lower(s);
    if l == "firecrawl"@ {
        Some(Provider::Firecrawl)
    } else if l == "tavily"@ || l == "tvly"@ {
        Some(Provider::Tavily)
    } else {
        None
    }
}

pub open spec fn spec_real_base_url(p: Provider) -> Seq<char> {
    match p {
        Provider::Firecrawl => "https://api.firecrawl.dev"@,
        Provider::Tavily => "https://api.tavily.com"@,
    }
}

pub open spec fn spec_proxy_prefix(p: Provider) -> Seq<char> {
    match p {
        Provider::Firecrawl => "/firecrawl"@,
        Provider::Tavily => "/tavily"@,
    }
}

pub open spec fn spec_api_key_env(p: Provider) -> Seq<char> {
    match p {
        Provider::Firecrawl => "FIRECRAWL_API_KEY"@,
        Provider::Tavily => "TAVILY_API_KEY"@,
    }
}

pub open spec fn spec_base_url_env(p: Provider) -> Seq<char> {
    match p {
        Provider::Firecrawl => "FIRECRAWL_API_URL"@,
        Provider::Tavily => "TAVILY_API_BASE_URL"@,
    }
}

pub open spec fn spec_cli_bin(p: Provider) -> Seq<char> {
    match p {
        Provider::Firecrawl => "firecrawl"@,
        Provider::Tavily => "tvly"@,
    }
}

pub open spec fn spec_usage_path(p: Provider) -> Option<Seq<char>> {
    match p {
        Provider::Firecrawl => Some("/v1/team/credit-usage"@),
        Provider::Tavily => None,
    }
}

impl Provider {
    /// Parses a provider name, ignoring ASCII case (`tvly` is accepted for tavily).
    pub fn from_str(s: &str) -> (r: Option<Provider>)
        ensures
            r == parse_provider(s@),
    {
        let l = to_ascii_lowercase(s);
        if str_eq(l.as_str(), "firecrawl") {
            Some(Provider::Firecrawl)
        } else if str_eq(l.as_str(), "tavily") || str_eq(l.as_str(), "tvly") {
            Some(Provider::Tavily)
        } else {
            None
        }
    }

    /// The provider's name as displayed (`firecrawl` or `tavily`).
    pub fn as_str(&self) -> (r: &'static str)
        ensures
            r@ == provider_name(*self),
    {
        match self {
            Provider::Firecrawl => "firecrawl",
            Provider::Tavily => "tavily",
        }
    }

    /// The provider's name as an owned string.
    pub fn to_string(&self) -> (r: String)
        ensures
            r@ == provider_name(*self),
    {
        self.as_str().to_owned()
    }

    /// Real upstream API base URL (where mode-A CLI connects directly, and mode-B
    /// proxy forwards to).
    pub fn real_base_url(&self) -> (r: &'static str)
        ensures
            r@ == spec_real_base_url(*self),
    {
        match self {
            Provider::Firecrawl => "https://api.firecrawl.dev",
            Provider::Tavily => "https://api.tavily.com",
        }
    }

    /// Path prefix the mode-B reverse proxy mounts for this provider.
    pub fn proxy_prefix(&self) -> (r: &'static str)
        ensures
            r@ == spec_proxy_prefix(*self),
    {
        match self {
            Provider::Firecrawl => "/firecrawl",
            Provider::Tavily => "/tavily",
        }
    }

    /// Env var the real CLI reads for the API key.
    pub fn api_key_env(&self) -> (r: &'static str)
        ensures
            r@ == spec_api_key_env(*self),
    {
        match self {
            Provider::Firecrawl => "FIRECRAWL_API_KEY",
            Provider::Tavily => "TAVILY_API_KEY",
        }
    }

    /// Env var the real CLI reads for the base URL override.
    pub fn base_url_env(&self) -> (r: &'static str)
        ensures
            r@ == spec_base_url_env(*self),
    {
        match self {
            Provider::Firecrawl => "FIRECRAWL_API_URL",
            Provider::Tavily => "TAVILY_API_BASE_URL",
        }
    }

    /// Real CLI binary name (used by `wrap` and `install` shims).
    pub fn cli_bin(&self) -> (r: &'static str)
        ensures
            r@ == spec_cli_bin(*self),
    {
        match self {
            Provider::Firecrawl => "firecrawl",
            Provider::Tavily => "tvly",
        }
    }

    /// Optional active usage-query endpoint. `None` means rely on passive
    /// 429/402 detection only (tavily is rate-limit based, no credit endpoint).
    pub fn usage_path(&self) -> (r: Option<&'static str>)
        ensures
            r is Some <==> spec_usage_path(*self) is Some,
            r is Some ==> r->0@ == spec_usage_path(*self)->0,
    {
        match self {
            Provider::Firecrawl => Some("/v1/team/credit-usage"),
            Provider::Tavily => None,
        }
    }
}

/// A provider's displayed name parses back to the same provider.
pub proof fn lemma_name_round_trip(p: Provider)
    ensures
        parse_provider(provider_name(p)) == Some(p),
{
    reveal_strlit("firecrawl");
    reveal_strlit("tavily");
    reveal_strlit("tvly");
    assert(lower("firecrawl"@) =~= "firecrawl"@);
    assert(lower("tavily"@) =~= "tavily"@);
    assert("tavily"@ != "firecrawl"@);
}

/// A provider's CLI binary name also parses to that provider.
pub proof fn lemma_cli_bin_parses(p: Provider)
    ensures
        parse_provider(spec_cli_bin(p)) == Some(p),
{
    reveal_strlit("firecrawl");
    reveal_strlit("tavily");
    reveal_strlit("tvly");
    assert(lower("firecrawl"@) =~= "firecrawl"@);
    assert(lower("tvly"@) =~= "tvly"@);
    assert("tvly"@ != "firecrawl"@);
}

/// Parsing ignores ASCII case: a name and its lower-cased form denote the same provider.
pub proof fn lemma_parse_ignores_case(s: Seq<char>)
    ensures
        parse_provider(lower(s)) == parse_provider(s),
{
    assert(lower(lower(s)) =~= lower(s));
}

} // verus!
