use jest_companion::config::Config;
use jest_companion::resolver::{find_longest_prefix, normalize_virtual, resolve_path};

fn config(pairs: &[(&str, &str)]) -> Config {
    Config {
        projects: pairs
            .iter()
            .map(|(k, v)| (k.to_string(), v.to_string()))
            .collect(),
    }
}

fn resolve(c: &Config, p: &str) -> Option<String> {
    resolve_path(c, p, "/proj")
}

#[test]
fn exact_root_match() {
    let c = config(&[("src", "/real/src")]);
    assert_eq!(resolve(&c, "src/a.lua"), Some("/proj/real/src/a.lua".to_string()));
}

#[test]
fn path_equal_to_root_resolves_to_its_directory() {
    let c = config(&[("src", "/real/src")]);
    assert_eq!(resolve(&c, "src"), Some("/proj/real/src".to_string()));
}

#[test]
fn longest_prefix_wins() {
    let c = config(&[("a", "/A"), ("a/b", "/B")]);
    assert_eq!(resolve(&c, "a/b/c"), Some("/proj/B/c".to_string()));
    let c = config(&[("a/b", "/B"), ("a", "/A")]);
    assert_eq!(resolve(&c, "a/b/c"), Some("/proj/B/c".to_string()));
    assert_eq!(resolve(&c, "a/x"), Some("/proj/A/x".to_string()));
}

#[test]
fn sandbox_segment_fallback() {
    let c = config(&[("ServerScriptService", "/S")]);
    assert_eq!(
        resolve(&c, "Game/ServerScriptService/x.lua"),
        Some("/proj/S/x.lua".to_string())
    );
}

#[test]
fn no_match_anywhere_is_not_found() {
    let c = config(&[("src", "/real/src")]);
    assert_eq!(resolve(&c, "Game/Other/x.lua"), None);
    assert_eq!(resolve(&c, "Game"), None);
    assert_eq!(resolve(&c, "Game/"), None);
    assert_eq!(resolve(&c, ""), None);
    assert_eq!(resolve(&c, "a/b/src/x.lua"), None);
    assert_eq!(resolve(&c, "srcx/a.lua"), None);
}

#[test]
fn backslashes_behave_as_slashes() {
    let c = config(&[("src", "/real/src")]);
    assert_eq!(resolve(&c, "src\\a.lua"), resolve(&c, "src/a.lua"));
    assert_eq!(resolve(&c, "src\\a.lua"), Some("/proj/real/src/a.lua".to_string()));
    assert_eq!(resolve(&c, "\\src\\a.lua"), Some("/proj/real/src/a.lua".to_string()));
}

#[test]
fn leading_slash_is_dropped() {
    let c = config(&[("src", "/real/src")]);
    assert_eq!(resolve(&c, "/src/a.lua"), Some("/proj/real/src/a.lua".to_string()));
}

#[test]
fn relative_real_root_and_trailing_slash() {
    let c = config(&[("shared", "lib/shared")]);
    assert_eq!(resolve_path(&c, "shared/m.lua", "/proj/"), Some("/proj/lib/shared/m.lua".to_string()));
    assert_eq!(resolve_path(&c, "shared/m.lua", ""), Some("lib/shared/m.lua".to_string()));
}

#[test]
fn normalize_replaces_backslashes_and_one_leading_slash() {
    assert_eq!(normalize_virtual("\\a\\b"), "a/b");
    assert_eq!(normalize_virtual("//a"), "/a");
    assert_eq!(normalize_virtual("a/b"), "a/b");
    assert_eq!(normalize_virtual(""), "");
}

#[test]
fn longest_prefix_index() {
    let c = config(&[("a", "/A"), ("a/b", "/B"), ("c", "/C")]);
    assert_eq!(find_longest_prefix(&c, "a/b/c"), Some(1));
    assert_eq!(find_longest_prefix(&c, "a/bc"), Some(0));
    assert_eq!(find_longest_prefix(&c, "c"), Some(2));
    assert_eq!(find_longest_prefix(&c, "d/a"), None);
}

#[test]
fn config_validity() {
    assert!(config(&[("src", "/a"), ("src/b", "/b")]).is_valid());
    assert!(config(&[]).is_valid());
    assert!(!config(&[("", "/a")]).is_valid());
    assert!(!config(&[("/src", "/a")]).is_valid());
    assert!(!config(&[("src/", "/a")]).is_valid());
    assert!(!config(&[("src", "/a"), ("src", "/b")]).is_valid());
}
