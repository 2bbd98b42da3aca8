use sway_action::mapping::{expand_tilde, lookup, parse_mapping, resolve};

fn pairs(entries: &[(&str, &str)]) -> Vec<(String, String)> {
    entries
        .iter()
        .map(|(k, v)| (k.to_string(), v.to_string()))
        .collect()
}

/// A mapped workspace resolves to its value with the tilde expanded
/// against the home directory; an unmapped one falls back to the home
/// directory itself.
#[test]
fn resolve_mapped_and_fallback() {
    let mapping = pairs(&[("ws1", "~/proj")]);
    assert_eq!(resolve(&mapping, "ws1", "/home/user"), "/home/user/proj");
    assert_eq!(resolve(&mapping, "unknown", "/home/user"), "/home/user");
}

/// An absolute mapped value is returned unchanged.
#[test]
fn resolve_absolute_value() {
    let mapping = pairs(&[("ws2", "/tmp/work")]);
    assert_eq!(resolve(&mapping, "ws2", "/home/user"), "/tmp/work");
}

/// Tilde expansion: `"~"` alone, `"~/rest"`, and the unexpanded forms.
#[test]
fn tilde_expansion_forms() {
    assert_eq!(expand_tilde("~", "/home/u"), "/home/u");
    assert_eq!(expand_tilde("~/p", "/home/u"), "/home/u/p");
    assert_eq!(expand_tilde("~user/p", "/home/u"), "~user/p");
    assert_eq!(expand_tilde("/abs", "/home/u"), "/abs");
    assert_eq!(expand_tilde("", "/home/u"), "");
}

/// One entry per `key: value` line, in order.
#[test]
fn parse_simple_mapping() {
    let m = parse_mapping("ws1: ~/proj\nws2: /tmp\n");
    assert_eq!(
        m,
        vec![
            ("ws1".to_string(), "~/proj".to_string()),
            ("ws2".to_string(), "/tmp".to_string()),
        ]
    );
}

/// Lines without the `": "` separator are ignored; the value is
/// everything after the first separator.
#[test]
fn parse_skips_malformed_lines() {
    let m = parse_mapping("broken line\nws1: a: b\n\nws2: x");
    assert_eq!(
        m,
        vec![
            ("ws1".to_string(), "a: b".to_string()),
            ("ws2".to_string(), "x".to_string()),
        ]
    );
}

/// The empty text parses to no entries.
#[test]
fn parse_empty_text() {
    assert!(parse_mapping("").is_empty());
}

/// When a key occurs twice, the later line wins the lookup.
#[test]
fn lookup_later_line_wins() {
    let m = parse_mapping("ws: /old\nws: /new\n");
    assert_eq!(lookup(&m, "ws"), Some("/new".to_string()));
    assert_eq!(lookup(&m, "missing"), None);
}
