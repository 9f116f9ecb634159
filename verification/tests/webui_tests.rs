use search_proxy::keys::KeyRow;
use search_proxy::webui::{self, WebuiTarget};

#[test]
fn keys_are_masked() {
    assert_eq!(webui::mask_key("short"), "short");
    assert_eq!(webui::mask_key("0123456789"), "0123456789");
    assert_eq!(webui::mask_key("fc-0123456789abcdef"), "fc-012...cdef");
    assert_eq!(webui::mask_key("αβγδεζηθικλμ"), "αβγδεζ...ικλμ");
    assert_eq!(webui::mask_key(""), "");
}

#[test]
fn key_rows_are_shown_without_the_secret() {
    let r = KeyRow {
        id: 5,
        provider: "tavily".to_string(),
        account_team: Some("team".to_string()),
        key_value: "tvly-abcdefghijklmnop".to_string(),
        status: "active".to_string(),
        cooldown_until: Some(9),
        credits_remaining: None,
        last_used_at: Some(3),
        last_error: Some("429".to_string()),
    };
    let a = webui::key_row_to_api(r);
    assert_eq!(a.id, 5);
    assert_eq!(a.provider, "tavily");
    assert_eq!(a.account_team.as_deref(), Some("team"));
    assert_eq!(a.status, "active");
    assert_eq!(a.cooldown_until, Some(9));
    assert_eq!(a.credits_remaining, None);
    assert_eq!(a.last_used_at, Some(3));
    assert_eq!(a.last_error.as_deref(), Some("429"));
    assert_eq!(a.key_masked, "tvly-a...mnop");
}

#[test]
fn assets_and_fallback() {
    let h = webui::asset_head("index.html", true);
    assert_eq!(h.status, 200);
    assert_eq!(h.content_type.as_deref(), Some("text/html"));
    let h = webui::asset_head("assets/app.js", true);
    assert_eq!(h.content_type.as_deref(), Some("text/javascript"));
    let h = webui::asset_head("LICENSE", true);
    assert_eq!(h.content_type.as_deref(), Some("application/octet-stream"));
    let h = webui::asset_head("missing.css", false);
    assert_eq!(h.status, 404);
    assert!(h.content_type.is_none());
    assert!(matches!(webui::webui_target("", true), WebuiTarget::Index));
    assert!(matches!(webui::webui_target("app.js", true), WebuiTarget::Asset));
    assert!(matches!(webui::webui_target("settings/keys", false), WebuiTarget::Index));
}
