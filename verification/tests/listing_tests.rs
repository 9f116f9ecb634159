use search_proxy::api::UserRow;
use search_proxy::keys::KeyRow;
use search_proxy::listing;

#[test]
fn integers_print_like_std() {
    for n in [0i64, 7, 10, 99, 100, -1, -10, 1234567890, i64::MAX, i64::MIN] {
        assert_eq!(listing::i64_to_decimal(n), n.to_string());
    }
}

#[test]
fn padding_like_format_width() {
    assert_eq!(listing::pad("id", 4), format!("{:<4}", "id"));
    assert_eq!(listing::pad("toolong", 4), format!("{:<4}", "toolong"));
    assert_eq!(listing::pad("äö", 4), format!("{:<4}", "äö"));
}

#[test]
fn key_table() {
    assert_eq!(listing::key_list_lines(&Vec::new()), vec!["(no keys)".to_string()]);
    let rows = vec![KeyRow {
        id: 1,
        provider: "firecrawl".to_string(),
        account_team: None,
        key_value: "fc-0123456789abcdef".to_string(),
        status: "active".to_string(),
        cooldown_until: None,
        credits_remaining: Some(500),
        last_used_at: None,
        last_error: None,
    }];
    let lines = listing::key_list_lines(&rows);
    assert_eq!(
        lines[0],
        format!(
            "{:<4} {:<10} {:<14} {:<14} {:<16} {:<8} {}",
            "id", "provider", "account", "status", "cooldown_until", "credits", "key"
        )
    );
    assert_eq!(
        lines[1],
        format!("{:<4} {:<10} {:<14} {:<14} {:<16} {:<8} {}", 1, "firecrawl", "-", "active", "-", "500", "fc-012...cdef")
    );
    assert_eq!(lines.len(), 2);
}

#[test]
fn user_table() {
    assert_eq!(listing::user_list_lines(&Vec::new()), vec!["(no users)".to_string()]);
    let users = vec![UserRow { id: 2, token: "sp-x".to_string(), name: Some("ann".to_string()), created_at: 1700000000 }];
    let lines = listing::user_list_lines(&users);
    assert_eq!(lines[0], format!("{:<4} {:<36} {:<16} {}", "id", "token", "name", "created_at"));
    assert_eq!(lines[1], format!("{:<4} {:<36} {:<16} {}", 2, "sp-x", "ann", 1700000000));
    let created = listing::user_created_lines("sp-t");
    assert_eq!(created[0], "created user token: sp-t");
    assert_eq!(created[2], "  firecrawl --api-url https://<vps>/firecrawl   (FIRECRAWL_API_KEY=sp-t)");
    assert_eq!(created[3], "  TAVILY_API_BASE_URL=https://<vps>/tavily      TAVILY_API_KEY=sp-t");
}

#[test]
fn status_summary_lines() {
    let stats = search_proxy::keys::PoolStats {
        keys_by_status: vec![("active".to_string(), 3), ("cooldown".to_string(), 1)],
        total_keys: 4,
        total_users: 2,
    };
    assert_eq!(
        listing::status_lines(&stats),
        vec!["keys: 4", "users: 2", "  active: 3", "  cooldown: 1"]
    );
    let empty = search_proxy::keys::PoolStats { keys_by_status: Vec::new(), total_keys: 0, total_users: 0 };
    assert_eq!(listing::status_lines(&empty), vec!["keys: 0", "users: 0"]);
}
