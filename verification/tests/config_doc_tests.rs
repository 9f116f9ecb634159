use search_proxy::config_doc::{merge_wrap_paths, wrap_paths_text, ConfigDoc, DocItem, DocValue};

fn str_value(v: &DocValue) -> Option<&str> {
    match v {
        DocValue::Str(s) => Some(s.as_str()),
        DocValue::Raw(_) => None,
    }
}

#[test]
fn no_file_gives_a_wrap_section_only() {
    let out = wrap_paths_text(None, "/usr/bin/firecrawl", "/usr/bin/tvly").unwrap();
    assert_eq!(
        out,
        "[wrap]\ncli_firecrawl_path = \"/usr/bin/firecrawl\"\ncli_tvly_path = \"/usr/bin/tvly\"\n"
    );
}

#[test]
fn other_sections_are_kept() {
    let existing = "[server]\nport = 8787\n";
    let out = wrap_paths_text(Some(existing), "/opt/fc", "/opt/tv").unwrap();
    assert_eq!(
        out,
        "[server]\nport = 8787\n\n[wrap]\ncli_firecrawl_path = \"/opt/fc\"\ncli_tvly_path = \"/opt/tv\"\n"
    );
}

#[test]
fn existing_wrap_entries_are_kept_and_paths_replaced() {
    let existing = "[wrap]\ncli_tvly_path = \"/old/tvly\"\nextra = true\n";
    let out = wrap_paths_text(Some(existing), "/new/fc", "/new/tv").unwrap();
    assert_eq!(
        out,
        "[wrap]\ncli_firecrawl_path = \"/new/fc\"\ncli_tvly_path = \"/new/tv\"\nextra = true\n"
    );
}

#[test]
fn non_table_wrap_is_left_alone() {
    let out = wrap_paths_text(Some("wrap = 5\n"), "/a", "/b").unwrap();
    assert_eq!(out, "wrap = 5\n");
}

#[test]
fn invalid_toml_is_refused() {
    let r = wrap_paths_text(Some("this is = = not toml"), "/a", "/b");
    assert_eq!(r, Err("config file is not valid TOML".to_string()));
}

#[test]
fn recording_twice_changes_nothing_more() {
    let once = wrap_paths_text(Some("[server]\nport = 1\n"), "/a", "/b").unwrap();
    let twice = wrap_paths_text(Some(once.as_str()), "/a", "/b").unwrap();
    assert_eq!(once, twice);
}

#[test]
fn merge_refuses_a_non_table_root() {
    let doc = ConfigDoc { root_is_table: false, entries: Vec::new() };
    assert_eq!(merge_wrap_paths(doc, "/a", "/b").err(), Some("config root is not a table".to_string()));
}

#[test]
fn merge_adds_wrap_at_the_end() {
    let doc = ConfigDoc {
        root_is_table: true,
        entries: vec![("server".to_string(), DocItem::Table(vec![("host".to_string(), DocValue::Str("h".to_string()))]))],
    };
    let out = merge_wrap_paths(doc, "/a", "/b").unwrap();
    assert_eq!(out.entries.len(), 2);
    assert_eq!(out.entries[0].0, "server");
    assert_eq!(out.entries[1].0, "wrap");
    match &out.entries[1].1 {
        DocItem::Table(w) => {
            assert_eq!(w.len(), 2);
            assert_eq!(w[0].0, "cli_firecrawl_path");
            assert_eq!(str_value(&w[0].1), Some("/a"));
            assert_eq!(w[1].0, "cli_tvly_path");
            assert_eq!(str_value(&w[1].1), Some("/b"));
        }
        DocItem::Value(_) => panic!("wrap should be a table"),
    }
}

#[test]
fn merge_sets_paths_in_place() {
    let doc = ConfigDoc {
        root_is_table: true,
        entries: vec![(
            "wrap".to_string(),
            DocItem::Table(vec![
                ("cli_tvly_path".to_string(), DocValue::Str("/old".to_string())),
                ("keep".to_string(), DocValue::Str("me".to_string())),
            ]),
        )],
    };
    let out = merge_wrap_paths(doc, "/fc", "/tv").unwrap();
    match &out.entries[0].1 {
        DocItem::Table(w) => {
            assert_eq!(w.len(), 3);
            assert_eq!(w[0].0, "cli_tvly_path");
            assert_eq!(str_value(&w[0].1), Some("/tv"));
            assert_eq!(w[1].0, "keep");
            assert_eq!(str_value(&w[1].1), Some("me"));
            assert_eq!(w[2].0, "cli_firecrawl_path");
            assert_eq!(str_value(&w[2].1), Some("/fc"));
        }
        DocItem::Value(_) => panic!("wrap should be a table"),
    }
}
