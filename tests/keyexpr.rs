use zenoh_ext::keyexpr::{contains_wildcard, is_valid_key_expr, join_key_expr, key_expr_matches, split_chunks};

fn s(x: &str) -> String {
    x.to_string()
}

#[test]
fn split_cuts_at_slashes() {
    let c = split_chunks(&s("a/bc//d"));
    let want: Vec<Vec<char>> = vec![vec!['a'], vec!['b', 'c'], vec![], vec!['d']];
    assert_eq!(c, want);
    assert_eq!(split_chunks(&s("")), vec![Vec::<char>::new()]);
}

#[test]
fn validity_of_key_expressions() {
    assert!(is_valid_key_expr(&s("a/b")));
    assert!(is_valid_key_expr(&s("a/*/c")));
    assert!(is_valid_key_expr(&s("a/**")));
    assert!(!is_valid_key_expr(&s("")));
    assert!(!is_valid_key_expr(&s("/a")));
    assert!(!is_valid_key_expr(&s("a/")));
    assert!(!is_valid_key_expr(&s("a//b")));
    assert!(!is_valid_key_expr(&s("a/b*")));
    assert!(!is_valid_key_expr(&s("a/***")));
    assert!(!is_valid_key_expr(&s("a/#")));
    assert!(!is_valid_key_expr(&s("a?b")));
}

#[test]
fn single_wildcard_matches_one_chunk() {
    assert!(key_expr_matches(&s("a/*"), &s("a/b")));
    assert!(!key_expr_matches(&s("a/*"), &s("a/b/c")));
    assert!(!key_expr_matches(&s("a/*"), &s("a")));
    assert!(key_expr_matches(&s("*/b"), &s("x/b")));
}

#[test]
fn double_wildcard_matches_any_chunks() {
    assert!(key_expr_matches(&s("a/**"), &s("a")));
    assert!(key_expr_matches(&s("a/**"), &s("a/b/c")));
    assert!(key_expr_matches(&s("**/c"), &s("a/b/c")));
    assert!(key_expr_matches(&s("a/**/c"), &s("a/c")));
    assert!(!key_expr_matches(&s("a/**/c"), &s("a/b/d")));
    assert!(!key_expr_matches(&s("b/**"), &s("a/b")));
}

#[test]
fn literal_patterns_match_equal_keys_only() {
    assert!(key_expr_matches(&s("a/b"), &s("a/b")));
    assert!(!key_expr_matches(&s("a/b"), &s("a/c")));
    assert!(!key_expr_matches(&s("a/b"), &s("a/bb")));
}

#[test]
fn join_and_wildcard_detection() {
    assert_eq!(join_key_expr(&s("cache"), &s("a/b")), s("cache/a/b"));
    assert!(contains_wildcard(&s("a/*")));
    assert!(contains_wildcard(&s("**")));
    assert!(!contains_wildcard(&s("a/b")));
}
