use search_proxy::keys::{self, KeyRow};
use search_proxy::provider::Provider;
use search_proxy::usage::{self, UsageStep};

fn row(id: i64, provider: &str, status: &str, cooldown: Option<i64>, last_used: Option<i64>) -> KeyRow {
    KeyRow {
        id,
        provider: provider.to_string(),
        account_team: None,
        key_value: format!("key-{id}"),
        status: status.to_string(),
        cooldown_until: cooldown,
        credits_remaining: None,
        last_used_at: last_used,
        last_error: None,
    }
}

#[test]
fn never_used_key_is_leased_first() {
    let rows = vec![
        row(1, "firecrawl", "active", None, Some(100)),
        row(2, "firecrawl", "active", None, None),
        row(3, "firecrawl", "active", None, Some(50)),
    ];
    assert_eq!(keys::select_lease(&rows, Provider::Firecrawl, 1000), Some(1));
}

#[test]
fn least_recently_used_then_smallest_id() {
    let rows = vec![
        row(7, "firecrawl", "active", None, Some(100)),
        row(3, "firecrawl", "active", None, Some(50)),
        row(2, "firecrawl", "active", None, Some(50)),
    ];
    assert_eq!(keys::select_lease(&rows, Provider::Firecrawl, 1000), Some(2));
}

#[test]
fn unavailable_keys_are_skipped() {
    let rows = vec![
        row(1, "tavily", "active", None, None),
        row(2, "firecrawl", "auth-failed", None, None),
        row(3, "firecrawl", "disabled", None, None),
        row(4, "firecrawl", "rate-limited", Some(2000), None),
        row(5, "firecrawl", "exhausted", Some(1000), None),
        row(6, "firecrawl", "rate-limited", Some(999), Some(10)),
    ];
    // Key 5's cooldown ends exactly now: still cooling. Key 6's has expired.
    assert_eq!(keys::select_lease(&rows, Provider::Firecrawl, 1000), Some(5));
    assert!(keys::needs_reactivation(&rows[5]));
    let none: Vec<KeyRow> = vec![row(1, "tavily", "active", None, None)];
    assert_eq!(keys::select_lease(&none, Provider::Firecrawl, 1000), None);
    assert_eq!(keys::select_lease(&Vec::new(), Provider::Tavily, 0), None);
}

#[test]
fn report_outcomes() {
    assert_eq!(keys::report_outcome("ok", None, 1000, 60, 21600), ("active", None));
    assert_eq!(keys::report_outcome("429", None, 1000, 60, 21600), ("rate-limited", Some(1060)));
    assert_eq!(keys::report_outcome("429", Some(5), 1000, 60, 21600), ("rate-limited", Some(1005)));
    assert_eq!(keys::report_outcome("402", Some(5), 1000, 60, 21600), ("exhausted", Some(22600)));
    assert_eq!(keys::report_outcome("quota", None, 1000, 60, 21600), ("exhausted", Some(22600)));
    assert_eq!(keys::report_outcome("auth-failed", None, 1000, 60, 21600), ("auth-failed", None));
    assert_eq!(keys::report_outcome("teapot", None, 1000, 60, 21600), ("active", None));
}

#[test]
fn cooldown_overflow_is_detected() {
    assert!(keys::cooldown_fits("429", None, 1000, 60, 21600));
    assert!(!keys::cooldown_fits("429", Some(i64::MAX), 1000, 60, 21600));
    assert!(!keys::cooldown_fits("quota", None, 1, 60, i64::MAX));
    assert!(keys::cooldown_fits("ok", Some(i64::MAX), i64::MAX, i64::MAX, i64::MAX));
}

#[test]
fn reported_limit_keeps_key_out_until_cooldown_ends() {
    let (status, cooldown) = keys::report_outcome("429", Some(30), 1000, 60, 21600);
    let r = row(1, "firecrawl", status, cooldown, Some(1000));
    assert!(!keys::is_leasable(&r, Provider::Firecrawl, 1030));
    assert!(keys::is_leasable(&r, Provider::Firecrawl, 1031));
}

#[test]
fn leasing_rotates_between_keys() {
    let mut rows = vec![
        row(1, "tavily", "active", None, Some(10)),
        row(2, "tavily", "active", None, Some(20)),
    ];
    let first = keys::select_lease(&rows, Provider::Tavily, 100).unwrap();
    assert_eq!(first, 0);
    rows[first].last_used_at = Some(100);
    let second = keys::select_lease(&rows, Provider::Tavily, 101).unwrap();
    assert_eq!(second, 1);
}

#[test]
fn plan_lease_hands_out_the_chosen_key() {
    let rows = vec![
        row(4, "firecrawl", "exhausted", Some(1), Some(5)),
        row(9, "firecrawl", "active", None, Some(7)),
    ];
    let plan = keys::plan_lease(&rows, Provider::Firecrawl);
    let pick = plan.pick.expect("a key is available");
    assert_eq!(pick.index, 0);
    assert!(pick.reactivate);
    assert_eq!(pick.lease.key_id, 4);
    assert_eq!(pick.lease.key_value, "key-4");
    assert_eq!(pick.lease.provider, Provider::Firecrawl);
    assert_eq!(pick.lease.lease_id.len(), 36);
    let empty = keys::plan_lease(&Vec::new(), Provider::Firecrawl);
    assert!(empty.pick.is_none());
}

#[test]
fn pool_stats_counts_by_status() {
    let rows = vec![
        row(1, "firecrawl", "active", None, None),
        row(2, "tavily", "rate-limited", Some(5), None),
        row(3, "tavily", "active", None, None),
        row(4, "firecrawl", "active", None, None),
    ];
    let s = keys::pool_stats(&rows, 3);
    assert_eq!(s.total_keys, 4);
    assert_eq!(s.total_users, 3);
    let mut groups = s.keys_by_status.clone();
    groups.sort();
    assert_eq!(groups, vec![("active".to_string(), 3), ("rate-limited".to_string(), 1)]);
    let empty = keys::pool_stats(&Vec::new(), 0);
    assert!(empty.keys_by_status.is_empty());
    assert_eq!(empty.total_keys, 0);
}

#[test]
fn now_is_after_2020() {
    assert!(keys::now_ts() > 1_577_836_800);
}

#[test]
fn auth_failed_key_is_never_leased_again() {
    let (status, cooldown) = keys::report_outcome("auth-failed", None, 1000, 60, 21600);
    let r = row(1, "tavily", status, cooldown, None);
    for t in [0, 1000, 10_000_000] {
        assert!(!keys::is_leasable(&r, Provider::Tavily, t));
    }
}

#[test]
fn ok_report_frees_a_cooling_key_at_once() {
    let (status, cooldown) = keys::report_outcome("ok", None, 1000, 60, 21600);
    let r = row(1, "tavily", status, cooldown, None);
    assert!(keys::is_leasable(&r, Provider::Tavily, 1000));
    assert!(!keys::is_leasable(&r, Provider::Firecrawl, 1000));
}

#[test]
fn usage_marks_keep_keys_out() {
    let UsageStep::Mark(m) = usage::usage_on_status(401, 1000, 60) else { panic!("401 marks") };
    let r = row(1, "firecrawl", m.status, m.cooldown_until, None);
    assert!(!keys::is_leasable(&r, Provider::Firecrawl, 5000));
    let m = usage::usage_on_credits(0, 1000, 21600).exhausted.unwrap();
    let r = row(1, "firecrawl", m.status, m.cooldown_until, None);
    assert!(!keys::is_leasable(&r, Provider::Firecrawl, 22600));
    assert!(keys::is_leasable(&r, Provider::Firecrawl, 22601));
}

#[test]
fn status_counts_add_up_to_the_total() {
    let rows = vec![
        row(1, "firecrawl", "active", None, None),
        row(2, "firecrawl", "exhausted", Some(1), None),
        row(3, "firecrawl", "exhausted", Some(1), None),
        row(4, "tavily", "auth-failed", None, None),
    ];
    let s = keys::pool_stats(&rows, 0);
    let sum: i64 = s.keys_by_status.iter().map(|(_, n)| n).sum();
    assert_eq!(sum, s.total_keys);
    assert_eq!(s.keys_by_status.len(), 3);
}

#[test]
fn consecutive_leases_use_every_key_once() {
    let mut rows = vec![
        row(1, "firecrawl", "active", None, Some(40)),
        row(2, "firecrawl", "rate-limited", Some(10), None),
        row(3, "firecrawl", "active", None, Some(20)),
    ];
    let mut seen = Vec::new();
    for t in [100, 100, 101] {
        let i = keys::select_lease(&rows, Provider::Firecrawl, t).unwrap();
        rows[i].status = "active".to_string();
        rows[i].cooldown_until = None;
        rows[i].last_used_at = Some(t);
        seen.push(rows[i].id);
    }
    assert_eq!(seen, vec![2, 3, 1]);
}
