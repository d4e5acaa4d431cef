use proxerver::glob::{is_host_allowed, wild_match};

#[test]
fn wildcard_matches_subdomain_only() {
    assert!(wild_match("*.example.com", "api.example.com"));
    assert!(!wild_match("*.example.com", "example.com"));
}

#[test]
fn literal_pattern_matches_only_itself() {
    assert!(wild_match("example.com", "example.com"));
    assert!(!wild_match("example.com", "api.example.com"));
    assert!(!wild_match("example.com", "example.co"));
    assert!(!wild_match("example.com", "wexample.com"));
}

#[test]
fn question_mark_matches_exactly_one_character() {
    assert!(wild_match("c?t", "cat"));
    assert!(wild_match("c?t", "cot"));
    assert!(!wild_match("c?t", "ct"));
    assert!(!wild_match("c?t", "cart"));
    assert!(!wild_match("????", "cat"));
}

#[test]
fn star_matches_any_run_including_none() {
    assert!(wild_match("*cat*", "dog_cat_dog"));
    assert!(wild_match("*cat*", "cat"));
    assert!(wild_match("*", ""));
    assert!(wild_match("*", "anything"));
    assert!(!wild_match("*d", "cat"));
    assert!(wild_match("a*b*c", "axxbyyc"));
    assert!(!wild_match("a*b*c", "axxbyy"));
}

#[test]
fn empty_pattern_matches_only_empty_text() {
    assert!(wild_match("", ""));
    assert!(!wild_match("", "x"));
}

#[test]
fn matcher_agrees_with_wildmatch_crate() {
    let cases = [
        ("*.example.com", "api.example.com"),
        ("*.example.com", "example.com"),
        ("example.com", "example.com"),
        ("c?t", "cat"),
        ("c?t", "cart"),
        ("*cat*", "dog_cat_dog"),
        ("*d", "cat"),
        ("????", "cat"),
        ("?", "cat"),
        ("a*b*c", "axxbyyc"),
        ("a**b", "ab"),
        ("*", ""),
        ("", ""),
        ("", "x"),
        ("??*", "ab"),
        ("*?", ""),
        ("h?st-*.internal", "host-7.internal"),
    ];
    for (pattern, text) in cases {
        assert_eq!(
            wild_match(pattern, text),
            wildmatch::WildMatch::new(pattern).matches(text),
            "pattern {:?} against {:?}",
            pattern,
            text
        );
    }
}

#[test]
fn host_allowed_when_any_pattern_matches() {
    let hosts = vec!["*.example.com".to_string(), "internal".to_string()];
    assert!(is_host_allowed("api.example.com", &hosts));
    assert!(is_host_allowed("internal", &hosts));
    assert!(!is_host_allowed("example.com", &hosts));
    assert!(!is_host_allowed("evil.com", &hosts));
    let none: Vec<String> = Vec::new();
    assert!(!is_host_allowed("anything", &none));
}
