use search_proxy::config::WrapConfig;
use search_proxy::provider::Provider;
use search_proxy::wrap::{self, WrapSetupError, WrapStep, MAX_ATTEMPTS};

#[test]
fn failures_are_classified_by_their_output() {
    assert_eq!(wrap::classify_failure("Error: HTTP 429 Too Many Requests"), Some("429"));
    assert_eq!(wrap::classify_failure("Rate limit exceeded"), Some("429"));
    assert_eq!(wrap::classify_failure("ratelimit"), Some("429"));
    assert_eq!(wrap::classify_failure("402 Payment Required"), Some("402"));
    assert_eq!(wrap::classify_failure("Insufficient CREDITS"), Some("402"));
    assert_eq!(wrap::classify_failure("quota exhausted"), Some("402"));
    assert_eq!(wrap::classify_failure("429 and also quota"), Some("402"));
    assert_eq!(wrap::classify_failure("file not found"), None);
    assert_eq!(wrap::classify_failure(""), None);
    assert_eq!(wrap::combine_output("err", "out"), "err out");
}

#[test]
fn retries_stop_after_three_runs() {
    assert_eq!(MAX_ATTEMPTS, 3);
    assert!(matches!(wrap::wrap_on_exit(1, true, "429"), WrapStep::ReportOkAndFinish));
    assert!(matches!(wrap::wrap_on_exit(1, false, "boom"), WrapStep::FailNonLimit));
    assert!(matches!(wrap::wrap_on_exit(1, false, "429"), WrapStep::ReportAndRetry { report: "429" }));
    assert!(matches!(wrap::wrap_on_exit(2, false, "quota"), WrapStep::ReportAndRetry { report: "402" }));
    assert!(matches!(wrap::wrap_on_exit(3, false, "quota"), WrapStep::ReportAndGiveUp { report: "402" }));
    assert!(matches!(wrap::wrap_on_lease_failure(1), WrapStep::FailWithLeaseError));
    assert!(matches!(wrap::wrap_on_lease_failure(2), WrapStep::FailNoKey));
}

fn cfg(url: Option<&str>, token: Option<&str>) -> WrapConfig {
    WrapConfig {
        vps_url: url.map(String::from),
        control_token: token.map(String::from),
        cli_firecrawl_path: Some("/opt/fc".to_string()),
        cli_tvly_path: None,
    }
}

#[test]
fn wrap_needs_url_and_token() {
    let t = wrap::wrap_target(&cfg(Some("https://vps.example//"), Some("tok"))).ok().unwrap();
    assert_eq!(t.base, "https://vps.example");
    assert_eq!(t.token, "tok");
    assert!(matches!(wrap::wrap_target(&cfg(None, Some("tok"))), Err(WrapSetupError::MissingVpsUrl)));
    assert!(matches!(wrap::wrap_target(&cfg(None, None)), Err(WrapSetupError::MissingVpsUrl)));
    assert!(matches!(wrap::wrap_target(&cfg(Some("u"), None)), Err(WrapSetupError::MissingControlToken)));
}

#[test]
fn real_cli_resolution() {
    let c = cfg(None, None);
    assert_eq!(wrap::configured_cli_path(Provider::Firecrawl, &c), Some("/opt/fc".to_string()));
    assert_eq!(wrap::configured_cli_path(Provider::Tavily, &c), None);
    assert_eq!(wrap::which_result("/usr/bin/tvly\n"), Some("/usr/bin/tvly".to_string()));
    assert_eq!(wrap::which_result("  \n"), None);
}

#[test]
fn setup_error_messages() {
    assert_eq!(WrapSetupError::MissingVpsUrl.message(), "wrap.vps_url not set in config");
    assert_eq!(WrapSetupError::MissingControlToken.message(), "wrap.control_token not set in config");
}
