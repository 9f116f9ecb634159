use search_proxy::provider::Provider;

#[test]
fn from_str_accepts_names_ignoring_case() {
    assert_eq!(Provider::from_str("firecrawl"), Some(Provider::Firecrawl));
    assert_eq!(Provider::from_str("FireCrawl"), Some(Provider::Firecrawl));
    assert_eq!(Provider::from_str("tavily"), Some(Provider::Tavily));
    assert_eq!(Provider::from_str("TAVILY"), Some(Provider::Tavily));
    assert_eq!(Provider::from_str("tvly"), Some(Provider::Tavily));
    assert_eq!(Provider::from_str("TvLy"), Some(Provider::Tavily));
}

#[test]
fn from_str_rejects_other_names() {
    assert_eq!(Provider::from_str(""), None);
    assert_eq!(Provider::from_str("firecrawl "), None);
    assert_eq!(Provider::from_str("exa"), None);
    assert_eq!(Provider::from_str("tav"), None);
}

#[test]
fn display_name_round_trips() {
    for p in [Provider::Firecrawl, Provider::Tavily] {
        assert_eq!(Provider::from_str(&p.to_string()), Some(p));
        assert_eq!(Provider::from_str(p.cli_bin()), Some(p));
    }
    assert_eq!(Provider::Firecrawl.to_string(), "firecrawl");
    assert_eq!(Provider::Tavily.as_str(), "tavily");
}

#[test]
fn endpoints_and_env_names() {
    assert_eq!(Provider::Firecrawl.real_base_url(), "https://api.firecrawl.dev");
    assert_eq!(Provider::Tavily.real_base_url(), "https://api.tavily.com");
    assert_eq!(Provider::Firecrawl.proxy_prefix(), "/firecrawl");
    assert_eq!(Provider::Tavily.proxy_prefix(), "/tavily");
    assert_eq!(Provider::Firecrawl.api_key_env(), "FIRECRAWL_API_KEY");
    assert_eq!(Provider::Tavily.api_key_env(), "TAVILY_API_KEY");
    assert_eq!(Provider::Firecrawl.base_url_env(), "FIRECRAWL_API_URL");
    assert_eq!(Provider::Tavily.base_url_env(), "TAVILY_API_BASE_URL");
    assert_eq!(Provider::Firecrawl.cli_bin(), "firecrawl");
    assert_eq!(Provider::Tavily.cli_bin(), "tvly");
    assert_eq!(Provider::Firecrawl.usage_path(), Some("/v1/team/credit-usage"));
    assert_eq!(Provider::Tavily.usage_path(), None);
}
