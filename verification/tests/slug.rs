use tix_git::slug::slugify;

#[test]
fn lowercases_and_dashes_spaces() {
    assert_eq!(slugify("Hello World", 50), "hello-world");
}

#[test]
fn trims_leading_and_trailing_dashes() {
    assert_eq!(slugify("  Trim Me  ", 50), "trim-me");
    assert_eq!(slugify("---Edges---", 50), "edges");
}

#[test]
fn collapses_consecutive_non_alphanum() {
    assert_eq!(slugify("fix login (#123)", 50), "fix-login-123");
    assert_eq!(slugify("a___b", 50), "a-b");
}

#[test]
fn non_ascii_becomes_dash() {
    assert_eq!(slugify("café", 50), "caf");
    assert_eq!(slugify("über cool", 50), "ber-cool");
}

#[test]
fn truncates_to_max_len_and_re_trims_trailing_dash() {
    assert_eq!(slugify("hello world", 6), "hello");
    assert_eq!(slugify("hello-world", 8), "hello-wo");
}

#[test]
fn empty_input_yields_empty() {
    assert_eq!(slugify("", 50), "");
    assert_eq!(slugify("   ", 50), "");
    assert_eq!(slugify("---", 50), "");
}

#[test]
fn already_slugged_passes_through() {
    assert_eq!(slugify("already-slugged", 50), "already-slugged");
}

#[test]
fn slug_is_well_formed_and_bounded() {
    let s = slugify("  Über--Cool__Feature!! 2024 ", 12);
    assert!(s.len() <= 12);
    assert!(!s.starts_with('-') && !s.ends_with('-'));
    assert!(!s.contains("--"));
    assert!(s
        .chars()
        .all(|c| c.is_ascii_lowercase() || c.is_ascii_digit() || c == '-'));
    assert_eq!(s, "ber-cool-fea");
}

#[test]
fn zero_max_len_gives_empty_slug() {
    assert_eq!(slugify("anything", 0), "");
}

#[test]
fn slugifying_twice_is_slugifying_once() {
    for (s, n) in [
        ("Fix Login (#123) -- now!", 50),
        ("  über cool  ", 50),
        ("hello world", 6),
        ("hello-world", 8),
        ("---", 50),
        ("a___b__C", 3),
    ] {
        let once = slugify(s, n);
        assert_eq!(slugify(&once, n), once, "{s}");
    }
}
