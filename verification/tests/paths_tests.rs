use search_proxy::paths;
use std::path::{Path, PathBuf};

fn std_push(base: &str, rel: &str) -> String {
    let mut p = PathBuf::from(base);
    p.push(rel);
    p.to_string_lossy().into_owned()
}

#[test]
fn joins_like_pathbuf_push() {
    for (b, r) in [("/home/u", ".local/bin"), ("/home/u/", ".local/bin"), ("", ".local/bin"), ("/x", "/abs"), ("rel", "a/b")] {
        assert_eq!(paths::push_path(b, r), std_push(b, r), "{b} + {r}");
    }
}

#[test]
fn config_locations() {
    assert_eq!(paths::config_candidates(None), vec!["search-proxy.toml".to_string()]);
    assert_eq!(
        paths::config_candidates(Some("/home/u")),
        vec!["search-proxy.toml".to_string(), "/home/u/.config/search-proxy/config.toml".to_string()]
    );
    assert_eq!(paths::default_install_dir(Some("/home/u")), "/home/u/.local/bin");
    assert_eq!(paths::default_install_dir(None), ".local/bin");
    assert_eq!(paths::wrap_config_path(Some("/root/")), "/root/.config/search-proxy/config.toml");
}

#[test]
fn shim_script_execs_the_wrapper() {
    assert_eq!(
        paths::shim_script("/usr/local/bin/search-proxy", "tvly"),
        "#!/bin/sh\nexec \"/usr/local/bin/search-proxy\" wrap tvly -- \"$@\"\n"
    );
}

#[test]
fn path_prefix_is_by_component() {
    let cases = [
        ("/home/u/.local/bin/tvly", "/home/u/.local/bin"),
        ("/home/u/.local/bin2/tvly", "/home/u/.local/bin"),
        ("/home/u//.local/./bin/tvly", "/home/u/.local/bin/"),
        ("relative/x", "relative"),
        ("./a/b", "a"),
        ("./a/b", "."),
        ("/a", "a"),
        ("a", ""),
        ("/", "/"),
        ("../x", ".."),
    ];
    for (p, b) in cases {
        assert_eq!(paths::path_has_prefix(p, b), Path::new(p).starts_with(b), "{p} / {b}");
        assert_eq!(paths::paths_equal(p, b), Path::new(p) == Path::new(b), "{p} == {b}");
    }
    assert!(paths::paths_equal("/a/b/", "/a//b"));
}

#[test]
fn probe_skips_shims_and_blank_lines() {
    let out = "/home/u/.local/bin/tvly\n\n  /usr/bin/tvly\r\n/opt/tvly/bin/tvly\n";
    assert_eq!(
        paths::probe_candidates(out, "/home/u/.local/bin"),
        vec!["/usr/bin/tvly".to_string(), "/opt/tvly/bin/tvly".to_string()]
    );
    assert!(paths::probe_candidates("", "/x").is_empty());
}

#[test]
fn path_variable_lookup() {
    assert!(paths::path_var_contains("/usr/bin:/home/u/.local/bin/:/bin", "/home/u/.local/bin"));
    assert!(!paths::path_var_contains("/usr/bin:/bin", "/home/u/.local/bin"));
    assert!(!paths::path_var_contains("", "/bin"));
}
