use tix_git::commands::start::{compose_branch_name, SLUG_MAX_LEN};

#[test]
fn branch_name_without_description() {
    assert_eq!(
        compose_branch_name("feature", "POD-1", None),
        "feature/POD-1"
    );
}

#[test]
fn branch_name_with_description_is_slugified() {
    assert_eq!(
        compose_branch_name("feature", "POD-1", Some("Fix Login Bug")),
        "feature/POD-1-fix-login-bug"
    );
}

#[test]
fn description_that_slugifies_to_empty_falls_back_to_no_slug() {
    assert_eq!(
        compose_branch_name("feature", "POD-1", Some("---")),
        "feature/POD-1"
    );
}

#[test]
fn long_description_is_truncated_to_max_len() {
    let long = "a".repeat(200);
    let name = compose_branch_name("feature", "POD-1", Some(&long));
    // "feature/POD-1-" + 50 a's
    assert_eq!(name, format!("feature/POD-1-{}", "a".repeat(SLUG_MAX_LEN)));
}

#[test]
fn custom_start_prefix() {
    assert_eq!(
        compose_branch_name("bug", "POD-1", Some("foo")),
        "bug/POD-1-foo"
    );
}
