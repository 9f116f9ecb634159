use search_proxy::api;
use search_proxy::auth;
use search_proxy::keys::Lease;
use search_proxy::provider::Provider;
use search_proxy::proxy::{self, ProxyDecision, MAX_RETRY};
use search_proxy::tokens;

#[test]
fn control_token_must_match_exactly() {
    assert!(auth::check_control_token(Some("s3cret"), Some("Bearer s3cret")).is_ok());
    let e = auth::check_control_token(Some("s3cret"), Some("Bearer wrong")).unwrap_err();
    assert_eq!((e.status, e.message.as_str()), (401, "invalid control token"));
    let e = auth::check_control_token(Some("s3cret"), None).unwrap_err();
    assert_eq!(e.status, 401);
    let e = auth::check_control_token(Some("s3cret"), Some("s3cret")).unwrap_err();
    assert_eq!(e.status, 401);
    let e = auth::check_control_token(None, Some("Bearer s3cret")).unwrap_err();
    assert_eq!((e.status, e.message.as_str()), (500, "server has no control_token configured"));
}

#[test]
fn bearer_tokens() {
    assert_eq!(auth::bearer_token(Some("Bearer sp-abc")), Some("sp-abc".to_string()));
    assert_eq!(auth::bearer_token(Some("Basic abc")), None);
    assert_eq!(auth::bearer_token(None), None);
    assert_eq!(auth::bearer_header("k"), "Bearer k");
    assert_eq!(auth::admin_session_token(Some("Bearer t")).ok(), Some("t".to_string()));
    let e = auth::admin_session_token(Some("t")).unwrap_err();
    assert_eq!((e.status, e.message.as_str()), (401, "missing bearer session"));
    assert!(auth::admin_session_verdict(true).is_ok());
    let e = auth::admin_session_verdict(false).unwrap_err();
    assert_eq!((e.status, e.message.as_str()), (401, "invalid or expired session"));
}

#[test]
fn login_rules() {
    assert!(auth::check_login(Some("pw"), "pw").is_ok());
    let e = auth::check_login(Some("pw"), "nope").unwrap_err();
    assert_eq!((e.status, e.message.as_str()), (401, "wrong password"));
    let e = auth::check_login(None, "pw").unwrap_err();
    assert_eq!((e.status, e.message.as_str()), (403, "admin login disabled (no admin.password set)"));
}

#[test]
fn tokens_have_their_shapes() {
    let t = tokens::new_user_token();
    assert!(t.starts_with("sp-"));
    assert_eq!(t.len(), 35);
    assert!(t[3..].chars().all(|c| c.is_ascii_hexdigit() && !c.is_ascii_uppercase()));
    assert_eq!(tokens::user_token_from("abc"), "sp-abc");
    let s = tokens::new_admin_session(1000, 60);
    assert_eq!(s.expires_at, 1060);
    assert_eq!(s.token.len(), 32);
    assert!(tokens::session_active(1060, 1059));
    assert!(!tokens::session_active(1060, 1060));
    let id = tokens::new_lease_id();
    assert_eq!(id.len(), 36);
    assert_eq!(id.as_bytes()[8], b'-');
    assert_ne!(tokens::new_session_token(), tokens::new_session_token());
}

#[test]
fn provider_parameter_and_lease_reply() {
    assert_eq!(api::provider_param("TVLY").ok(), Some(Provider::Tavily));
    let e = api::provider_param("nope").unwrap_err();
    assert_eq!((e.status, e.message.as_str()), (400, "invalid provider"));
    let r = api::lease_resp(Lease {
        key_id: 3,
        key_value: "fc-1".to_string(),
        lease_id: "l".to_string(),
        provider: Provider::Firecrawl,
    });
    assert_eq!(r.key, "fc-1");
    assert_eq!(r.key_id, 3);
    assert_eq!(r.lease_id, "l");
    assert_eq!(r.provider, "firecrawl");
}

#[test]
fn hop_by_hop_headers_are_dropped() {
    for h in ["connection", "Keep-Alive", "proxy-authenticate", "Proxy-Authorization", "te", "trailers",
        "Transfer-Encoding", "upgrade", "HOST", "content-length"] {
        assert!(!proxy::forward_header(h), "{h}");
    }
    for h in ["authorization", "content-type", "accept", "x-api-key", "tea"] {
        assert!(proxy::forward_header(h), "{h}");
    }
}

#[test]
fn upstream_urls() {
    assert_eq!(
        proxy::upstream_url(Provider::Firecrawl, "/firecrawl/v1/scrape", Some("a=1&b=2")),
        "https://api.firecrawl.dev/v1/scrape?a=1&b=2"
    );
    assert_eq!(proxy::upstream_url(Provider::Tavily, "/tavily/search", None), "https://api.tavily.com/search");
    assert_eq!(proxy::upstream_url(Provider::Tavily, "/other/search", None), "https://api.tavily.com");
}

#[test]
fn retry_after_is_parsed_like_std() {
    for s in ["0", "120", "+7", "-3", "", "-", "+", "12a", " 5", "9223372036854775807",
        "9223372036854775808", "-9223372036854775808", "-9223372036854775809", "00042",
        "99999999999999999999999"] {
        assert_eq!(proxy::parse_i64(s), s.parse::<i64>().ok(), "{s:?}");
    }
    assert_eq!(proxy::retry_after_secs(Some("30")), Some(30));
    assert_eq!(proxy::retry_after_secs(None), None);
}

#[test]
fn limited_upstream_answers_rotate_the_key_once() {
    assert_eq!(MAX_RETRY, 2);
    assert!(matches!(proxy::proxy_decision(1, 200), ProxyDecision::Forward));
    assert!(matches!(proxy::proxy_decision(1, 500), ProxyDecision::Forward));
    assert!(matches!(proxy::proxy_decision(1, 429), ProxyDecision::Retry { report: "429" }));
    assert!(matches!(proxy::proxy_decision(1, 402), ProxyDecision::Retry { report: "402" }));
    assert!(matches!(proxy::proxy_decision(2, 429), ProxyDecision::ForwardLimited { report: "429" }));
    assert!(matches!(proxy::proxy_decision(2, 404), ProxyDecision::Forward));
}

#[test]
fn bearer_header_round_trips() {
    for t in ["", "abc", "Bearer x", "sp-0123"] {
        let h = auth::bearer_header(t);
        assert_eq!(auth::bearer_token(Some(&h)), Some(t.to_string()));
        assert!(auth::check_control_token(Some(t), Some(&h)).is_ok());
    }
}

#[test]
fn tokens_carry_uuid_version_and_variant() {
    for _ in 0..20 {
        let t = tokens::new_user_token();
        let u = &t.as_bytes()[3..];
        assert_eq!(u[12], b'4');
        assert!(matches!(u[16], b'8' | b'9' | b'a' | b'b'));
        let s = tokens::new_session_token();
        assert_eq!(s.as_bytes()[12], b'4');
        assert!(matches!(s.as_bytes()[16], b'8' | b'9' | b'a' | b'b'));
        let id = tokens::new_lease_id();
        assert_eq!(id.as_bytes()[14], b'4');
        assert!(matches!(id.as_bytes()[19], b'8' | b'9' | b'a' | b'b'));
        assert_eq!(id.as_bytes()[13], b'-');
        assert_eq!(id.as_bytes()[18], b'-');
        assert_eq!(id.as_bytes()[23], b'-');
    }
}

fn hdr(name: &str, value: &str) -> (String, Vec<u8>) {
    (name.to_string(), value.as_bytes().to_vec())
}

#[test]
fn upstream_headers_replace_the_user_token_with_the_key() {
    let client = vec![
        hdr("Authorization", "Bearer sp-usertoken"),
        hdr("content-type", "application/json"),
        hdr("Host", "proxy.example"),
        hdr("AUTHORIZATION", "Bearer other"),
        hdr("x-trace", "1"),
        hdr("Connection", "keep-alive"),
    ];
    let out = proxy::upstream_headers(&client, "fc-secret");
    assert_eq!(
        out,
        vec![
            hdr("content-type", "application/json"),
            hdr("x-trace", "1"),
            hdr("authorization", "Bearer fc-secret"),
        ]
    );
}

#[test]
fn upstream_headers_of_an_empty_request() {
    let out = proxy::upstream_headers(&Vec::new(), "tvly-k");
    assert_eq!(out, vec![hdr("authorization", "Bearer tvly-k")]);
    assert!(proxy::keeps_upstream("X-Api-Version"));
    assert!(!proxy::keeps_upstream("Authorization"));
    assert!(!proxy::keeps_upstream("transfer-encoding"));
}

#[test]
fn user_token_answers() {
    assert_eq!(auth::proxy_user_token(Some("Bearer sp-1")).ok(), Some("sp-1".to_string()));
    let e = auth::proxy_user_token(None).unwrap_err();
    assert_eq!((e.status, e.message.as_str()), (401, "missing bearer token"));
    let e = auth::proxy_user_token(Some("Basic x")).unwrap_err();
    assert_eq!((e.status, e.message.as_str()), (401, "missing bearer token"));
    assert!(auth::user_token_verdict(true).is_ok());
    let e = auth::user_token_verdict(false).unwrap_err();
    assert_eq!((e.status, e.message.as_str()), (401, "invalid user token"));
}
