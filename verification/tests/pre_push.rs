use tix_git::config::Source;
use tix_git::hooks::pre_push::{check_lines, first_matching_pattern, push_block_message};

fn protected() -> Vec<String> {
    vec![
        "main".to_string(),
        "master".to_string(),
        "release/*".to_string(),
    ]
}

#[test]
fn flags_protected_branch_push() {
    let line = "refs/heads/main aaaa refs/heads/main bbbb\n";
    let v = check_lines(line, &protected());
    assert_eq!(v.len(), 1);
    assert_eq!(v[0].0, "main");
}

#[test]
fn allows_unprotected_branch_push() {
    let line = "refs/heads/feature/x aaaa refs/heads/feature/x bbbb\n";
    let v = check_lines(line, &protected());
    assert!(v.is_empty());
}

#[test]
fn allows_branch_deletion() {
    // Deletion: local_sha is all zeros.
    let line = "(delete) 0000000000000000000000000000000000000000 refs/heads/main bbbb\n";
    let v = check_lines(line, &protected());
    assert!(v.is_empty());
}

#[test]
fn flags_glob_match() {
    let line = "refs/heads/release/1.0 aaaa refs/heads/release/1.0 bbbb\n";
    let v = check_lines(line, &protected());
    assert_eq!(v.len(), 1);
    assert_eq!(v[0].1, "release/*");
}

#[test]
fn allows_branch_outside_glob_segment() {
    let line = "refs/heads/release/1.0/rc1 aaaa refs/heads/release/1.0/rc1 bbbb\n";
    let v = check_lines(line, &protected());
    assert!(v.is_empty());
}

#[test]
fn flags_one_of_multiple_refs() {
    let input = "refs/heads/feature/x aaaa refs/heads/feature/x bbbb\n\
                 refs/heads/main cccc refs/heads/main dddd\n";
    let v = check_lines(input, &protected());
    assert_eq!(v.len(), 1);
    assert_eq!(v[0].0, "main");
}

#[test]
fn ignores_short_lines() {
    let line = "incomplete line\n";
    let v = check_lines(line, &protected());
    assert!(v.is_empty());
}

#[test]
fn first_matching_pattern_takes_the_first() {
    let pats = vec!["release/*".to_string(), "release/1.0".to_string()];
    assert_eq!(
        first_matching_pattern("release/1.0", &pats),
        Some("release/*".to_string())
    );
    assert_eq!(first_matching_pattern("main", &pats), None);
}

#[test]
fn block_message_lists_refs_and_bypass() {
    let v = vec![
        ("main".to_string(), "main".to_string()),
        ("release/2".to_string(), "release/*".to_string()),
    ];
    assert_eq!(
        push_block_message(&v, Some(Source::Default)),
        "push blocked: 2 protected ref(s) (from default):\n  - main matches 'main'\n  - release/2 matches 'release/*'\npass --no-verify to bypass."
    );
}
