//! The configuration file's model and its defaults.
use vstd::prelude::*;

verus! {

/// The whole configuration; each section takes its defaults when it is missing.
#[derive(Debug, Clone)]
pub struct Config {
    pub server: ServerConfig,
    pub database: DbConfig,
    pub rotation: RotationConfig,
    pub wrap: WrapConfig,
    pub admin: AdminConfig,
}

/// Server (control plane, proxy and WebUI) settings.
#[derive(Debug, Clone)]
pub struct ServerConfig {
    pub listen: String,
    /// Control-plane token used by the mode-A wrapper for /lease and /report.
    /// Required for `serve`; not needed for `wrap`-only configs.
    pub control_token: Option<String>,
}

/// Where the key database lives.
#[derive(Debug, Clone)]
pub struct DbConfig {
    pub path: String,
}

/// Cooldowns and the usage refresh period, in seconds.
#[derive(Debug, Clone)]
pub struct RotationConfig {
    pub rate_limit_cooldown_secs: i64,
    pub quota_cooldown_secs: i64,
    pub usage_refresh_secs: i64,
}

/// Mode-A (wrapper) configuration: where the VPS control plane is and how to
/// reach it, plus optional absolute paths to the real CLIs (normally filled by
/// `search-proxy install`).
#[derive(Debug, Clone)]
pub struct WrapConfig {
    pub vps_url: Option<String>,
    pub control_token: Option<String>,
    pub cli_firecrawl_path: Option<String>,
    pub cli_tvly_path: Option<String>,
}

/// Admin/WebUI configuration. If `password` is unset, admin login is disabled.
#[derive(Debug, Clone)]
pub struct AdminConfig {
    pub password: Option<String>,
    pub session_ttl_secs: i64,
}

pub open spec fn spec_default_listen() -> Seq<char> {
    "127.0.0.1:8787"@
}

pub open spec fn spec_default_db_path() -> Seq<char> {
    "data/search-proxy.db"@
}

/// Default listen address.
pub fn default_listen() -> (r: String)
    ensures
        r@ == spec_default_listen(),
{
    "127.0.0.1:8787".to_owned()
}

/// Default database path.
pub fn default_db_path() -> (r: String)
    ensures
        r@ == spec_default_db_path(),
{
    "data/search-proxy.db".to_owned()
}

/// Default rate-limit cooldown: one minute.
pub fn default_rl_cooldown() -> (r: i64)
    ensures
        r == 60,
{
    60
}

/// Default quota cooldown: six hours.
pub fn default_quota_cooldown() -> (r: i64)
    ensures
        r == 6 * 3600,
{
    6 * 3600
}

/// Default usage refresh period: ten minutes.
pub fn default_refresh() -> (r: i64)
    ensures
        r == 600,
{
    600
}

/// Default admin session lifetime: seven days.
pub fn default_admin_ttl() -> (r: i64)
    ensures
        r == 7 * 86400,
{
    7 * 86400
}

impl Default for ServerConfig {
    fn default() -> (r: Self)
        ensures
            r.listen@ == spec_default_listen(),
            r.control_token is None,
    {
        ServerConfig { listen: default_listen(), control_token: None }
    }
}

impl Default for DbConfig {
    fn default() -> (r: Self)
        ensures
            r.path@ == spec_default_db_path(),
    {
        DbConfig { path: default_db_path() }
    }
}

impl Default for RotationConfig {
    fn default() -> (r: Self)
        ensures
            r.rate_limit_cooldown_secs == 60,
            r.quota_cooldown_secs == 21600,
            r.usage_refresh_secs == 600,
    {
        RotationConfig {
            rate_limit_cooldown_secs: default_rl_cooldown(),
            quota_cooldown_secs: default_quota_cooldown(),
            usage_refresh_secs: default_refresh(),
        }
    }
}

impl Default for WrapConfig {
    fn default() -> (r: Self)
        ensures
            r.vps_url is None,
            r.control_token is None,
            r.cli_firecrawl_path is None,
            r.cli_tvly_path is None,
    {
        WrapConfig { vps_url: None, control_token: None, cli_firecrawl_path: None, cli_tvly_path: None }
    }
}

impl Default for AdminConfig {
    /// A missing `[admin]` section: login disabled and a zero session lifetime (the seven-day
    /// default applies only to a present section that omits `session_ttl_secs`).
    fn default() -> (r: Self)
        ensures
            r.password is None,
            r.session_ttl_secs == 0,
    {
        AdminConfig { password: None, session_ttl_secs: 0 }
    }
}

/// `serve` needs a control token: without one it refuses to start.
pub fn require_control_token(server: &ServerConfig) -> (r: Result<(), String>)
    ensures
        r is Ok <==> server.control_token is Some,
        r matches Err(m) ==> m@ == "server.control_token is required for `serve`"@,
{
    match &server.control_token {
        Some(_) => Ok(()),
        None => Err("server.control_token is required for `serve`".to_owned()),
    }
}

/// Seconds between two background usage refreshes: the configured period, at least one.
pub fn refresh_interval_secs(rotation: &RotationConfig) -> (r: u64)
    ensures
        rotation.usage_refresh_secs >= 1 ==> r == rotation.usage_refresh_secs,
        rotation.usage_refresh_secs < 1 ==> r == 1,
{
    if rotation.usage_refresh_secs >= 1 {
        rotation.usage_refresh_secs as u64
    } else {
        1
    }
}

} // verus!
