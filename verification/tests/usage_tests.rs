use search_proxy::provider::Provider;
use search_proxy::usage::{self, UsageStep};

#[test]
fn remaining_credits_are_read_from_firecrawl_replies() {
    let body = r#"{"success":true,"data":{"remaining_credits":420}}"#;
    assert_eq!(usage::parse_remaining(body, Provider::Firecrawl), Some(420));
    assert_eq!(usage::parse_remaining(body, Provider::Tavily), None);
    assert_eq!(usage::parse_remaining("not json", Provider::Firecrawl), None);
    assert_eq!(usage::parse_remaining(r#"{"data":{}}"#, Provider::Firecrawl), None);
    assert_eq!(usage::parse_remaining(r#"{"data":{"remaining_credits":"5"}}"#, Provider::Firecrawl), None);
    assert_eq!(usage::parse_remaining(r#"{"data":{"remaining_credits":0}}"#, Provider::Firecrawl), Some(0));
}

#[test]
fn usage_url_only_for_providers_with_an_endpoint() {
    assert_eq!(
        usage::usage_query_url("firecrawl"),
        Some("https://api.firecrawl.dev/v1/team/credit-usage".to_string())
    );
    assert_eq!(usage::usage_query_url("tavily"), None);
    assert_eq!(usage::usage_query_url("unknown"), None);
}

#[test]
fn usage_status_decisions() {
    match usage::usage_on_status(401, 1000, 60) {
        UsageStep::Mark(m) => {
            assert_eq!(m.status, "auth-failed");
            assert_eq!(m.cooldown_until, None);
            assert_eq!(m.error, "usage:401");
        }
        _ => panic!("401 marks the key"),
    }
    match usage::usage_on_status(429, 1000, 60) {
        UsageStep::Mark(m) => {
            assert_eq!(m.status, "rate-limited");
            assert_eq!(m.cooldown_until, Some(1060));
            assert_eq!(m.error, "usage:429");
        }
        _ => panic!("429 marks the key"),
    }
    assert!(matches!(usage::usage_on_status(500, 1000, 60), UsageStep::Skip));
    assert!(matches!(usage::usage_on_status(302, 1000, 60), UsageStep::Skip));
    assert!(matches!(usage::usage_on_status(200, 1000, 60), UsageStep::ReadBody));
    assert!(matches!(usage::usage_on_status(204, 1000, 60), UsageStep::ReadBody));
}

#[test]
fn zero_credits_exhaust_the_key() {
    let up = usage::usage_on_credits(0, 1000, 21600);
    assert_eq!(up.credits, 0);
    let m = up.exhausted.expect("exhausted");
    assert_eq!(m.status, "exhausted");
    assert_eq!(m.cooldown_until, Some(22600));
    assert_eq!(m.error, "usage:0 credits");
    let up = usage::usage_on_credits(17, 1000, 21600);
    assert_eq!(up.credits, 17);
    assert!(up.exhausted.is_none());
}
