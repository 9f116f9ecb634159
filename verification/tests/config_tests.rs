use search_proxy::config::{self, AdminConfig, DbConfig, RotationConfig, ServerConfig, WrapConfig};

#[test]
fn defaults() {
    assert_eq!(config::default_listen(), "127.0.0.1:8787");
    assert_eq!(config::default_db_path(), "data/search-proxy.db");
    assert_eq!(config::default_rl_cooldown(), 60);
    assert_eq!(config::default_quota_cooldown(), 21600);
    assert_eq!(config::default_refresh(), 600);
    assert_eq!(config::default_admin_ttl(), 604800);
    let s = ServerConfig::default();
    assert_eq!(s.listen, "127.0.0.1:8787");
    assert!(s.control_token.is_none());
    assert_eq!(DbConfig::default().path, "data/search-proxy.db");
    let r = RotationConfig::default();
    assert_eq!((r.rate_limit_cooldown_secs, r.quota_cooldown_secs, r.usage_refresh_secs), (60, 21600, 600));
    let w = WrapConfig::default();
    assert!(w.vps_url.is_none() && w.control_token.is_none() && w.cli_firecrawl_path.is_none() && w.cli_tvly_path.is_none());
    let a = AdminConfig::default();
    assert!(a.password.is_none());
    assert_eq!(a.session_ttl_secs, 0);
}

#[test]
fn serve_needs_a_control_token() {
    let mut s = ServerConfig::default();
    assert_eq!(config::require_control_token(&s), Err("server.control_token is required for `serve`".to_string()));
    s.control_token = Some("t".to_string());
    assert_eq!(config::require_control_token(&s), Ok(()));
}

#[test]
fn refresh_interval_is_at_least_one_second() {
    let mut r = RotationConfig::default();
    assert_eq!(config::refresh_interval_secs(&r), 600);
    r.usage_refresh_secs = 0;
    assert_eq!(config::refresh_interval_secs(&r), 1);
    r.usage_refresh_secs = -5;
    assert_eq!(config::refresh_interval_secs(&r), 1);
    r.usage_refresh_secs = 1;
    assert_eq!(config::refresh_interval_secs(&r), 1);
}
