use agent_browser::glob::{collapse_wildcards, route_url_matches};

#[test]
fn collapses_runs_of_stars() {
    assert_eq!(collapse_wildcards("**/api/***"), "*/api/*");
    assert_eq!(collapse_wildcards("a*b"), "a*b");
    assert_eq!(collapse_wildcards(""), "");
    assert_eq!(collapse_wildcards("****"), "*");
}

#[test]
fn collapsing_twice_changes_nothing() {
    for p in ["**a**b", "*", "x", "a***"] {
        let once = collapse_wildcards(p);
        assert_eq!(collapse_wildcards(&once), once);
        assert!(!once.contains("**"));
    }
}

#[test]
fn a_star_selects_everything() {
    assert!(route_url_matches("*", "https://x.org/"));
    assert!(route_url_matches("**", ""));
}

#[test]
fn a_pattern_without_stars_is_a_part() {
    assert!(route_url_matches("/api/", "https://x.org/api/v1"));
    assert!(!route_url_matches("/api/", "https://x.org/apis"));
    assert!(route_url_matches("", "anything"));
}

#[test]
fn parts_are_anchored_at_the_ends() {
    assert!(route_url_matches("https://*.js", "https://x.org/a.js"));
    assert!(!route_url_matches("https://*.js", "http://x.org/a.js"));
    assert!(!route_url_matches("https://*.js", "https://x.org/a.js?v=1"));
    assert!(route_url_matches("*.js", ".js"));
    assert!(route_url_matches("a*", "a"));
    assert!(!route_url_matches("a*a", "a"));
    assert!(route_url_matches("a*a", "aa"));
}

#[test]
fn parts_come_in_order() {
    assert!(route_url_matches("**/api/**/users", "https://x.org/api/v2/users"));
    assert!(!route_url_matches("*b*a*", "ab"));
    assert!(route_url_matches("*aa", "xaaa"));
    assert!(!route_url_matches("*ab*b", "ab"));
    assert!(route_url_matches("*ab*b", "abb"));
}

#[test]
fn collapsing_keeps_what_is_selected() {
    for p in ["**/a", "a**b", "***", "x**"] {
        for u in ["/a", "ab", "x", "xa/ab", ""] {
            assert_eq!(route_url_matches(p, u), route_url_matches(&collapse_wildcards(p), u));
        }
    }
}

#[test]
fn matches_beyond_ascii() {
    assert!(route_url_matches("ä*ß", "äöüß"));
    assert!(!route_url_matches("ä*ö", "äöüß"));
}

#[test]
fn between_stars_stands_a_part() {
    for u in ["", "x", "axb", "ab"] {
        assert_eq!(route_url_matches("*x*", u), u.contains('x'));
    }
}
