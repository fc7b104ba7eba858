use tix_git::glob::glob_to_regex;

#[test]
fn exact_pattern_matches_exact_branch() {
    assert!(tix_git::glob::matches("main", "main"));
    assert!(!tix_git::glob::matches("main", "main2"));
    assert!(!tix_git::glob::matches("main", "feature/main"));
}

#[test]
fn star_matches_within_a_segment() {
    assert!(tix_git::glob::matches("release/*", "release/1.0"));
    assert!(tix_git::glob::matches("release/*", "release/rc1"));
}

#[test]
fn star_does_not_cross_slash() {
    assert!(!tix_git::glob::matches("release/*", "release/1.0/rc1"));
    assert!(!tix_git::glob::matches("release/*", "release"));
}

#[test]
fn star_matches_prefix_within_segment() {
    assert!(tix_git::glob::matches("release/rc-*", "release/rc-1"));
    assert!(tix_git::glob::matches("release/rc-*", "release/rc-final"));
    assert!(!tix_git::glob::matches("release/rc-*", "release/v1"));
}

#[test]
fn no_doublestar_support() {
    assert!(!tix_git::glob::matches("release/**", "release/1.0/rc1"));
}

#[test]
fn segment_count_must_match() {
    assert!(!tix_git::glob::matches("a/*/c", "a/c"));
    assert!(tix_git::glob::matches("a/*/c", "a/b/c"));
    assert!(!tix_git::glob::matches("a/*/c", "a/b/c/d"));
}

#[test]
fn glob_becomes_anchored_escaped_regex() {
    assert_eq!(glob_to_regex("release/*"), "^release/[^/]*$");
    assert_eq!(glob_to_regex("v1.0_x-y"), "^v1\\.0_x-y$");
}

#[test]
fn dots_in_patterns_are_literal() {
    assert!(tix_git::glob::matches("v1.0", "v1.0"));
    assert!(!tix_git::glob::matches("v1.0", "v1x0"));
}
