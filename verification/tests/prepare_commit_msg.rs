use tix_git::hooks::prepare_commit_msg::{
    apply_prefix, first_real_line, hook_args, is_skipped_source, prefixed_message,
};
use tix_git::ticket::extract_prefix;

#[test]
fn prefixes_simple_message() {
    let out = apply_prefix("fix bug\n", "{ticket} {message}", "POD-1");
    assert_eq!(out, "POD-1 fix bug\n");
}

#[test]
fn prefixes_only_first_real_line() {
    let out = apply_prefix("fix bug\n\nbody text\n", "{ticket} {message}", "POD-1");
    assert_eq!(out, "POD-1 fix bug\n\nbody text\n");
}

#[test]
fn skips_leading_comments_and_blank_lines() {
    let out = apply_prefix(
        "\n# Please enter the commit message\n",
        "{ticket} {message}",
        "POD-1",
    );
    // First non-comment, non-empty line must hold the prefix.
    assert!(out.contains("POD-1 "));
}

#[test]
fn empty_file_yields_just_the_prefix() {
    let out = apply_prefix("", "{ticket} {message}", "POD-1");
    assert_eq!(out, "POD-1 ");
}

#[test]
fn extract_prefix_detects_existing_ticket_in_first_real_line() {
    let pat = r"^[A-Z]+-\d+$";
    assert!(extract_prefix("POD-2 something", pat).is_some());
    assert!(extract_prefix("# comment\nfix it", pat).is_none());
}

#[test]
fn first_real_line_skips_comments() {
    assert_eq!(
        first_real_line("\n# comment\nactual line\n"),
        Some("actual line".to_string())
    );
    assert_eq!(first_real_line("# only comments\n"), None);
    assert_eq!(first_real_line("\n\n\n"), None);
}

#[test]
fn comment_template_gets_a_new_first_line() {
    let out = apply_prefix(
        "\n# Please enter the commit message\n# Lines starting with '#' will be ignored\n",
        "{ticket} {message}",
        "POD-1",
    );
    assert!(out.starts_with("POD-1 \n"), "got: {out:?}");
}

#[test]
fn custom_template_places_ticket_anywhere() {
    let out = apply_prefix("  indented subject\nbody\n", "[{ticket}] {message}", "X-9");
    assert_eq!(out, "[X-9]   indented subject\nbody\n");
}

#[test]
fn first_real_line_drops_carriage_return() {
    assert_eq!(first_real_line("subject\r\nbody"), Some("subject".to_string()));
}

#[test]
fn message_already_carrying_a_ticket_is_left_alone() {
    let pat = r"^[A-Z]+-\d+$";
    assert_eq!(
        prefixed_message("POD-9 already tagged\n", pat, "{ticket} {message}", "POD-1").unwrap(),
        None
    );
    assert_eq!(
        prefixed_message("fix bug\n", pat, "{ticket} {message}", "POD-1").unwrap(),
        Some("POD-1 fix bug\n".to_string())
    );
    assert!(prefixed_message("fix bug\n", "(", "{ticket} {message}", "POD-1").is_err());
}

#[test]
fn merge_and_squash_sources_are_skipped() {
    assert!(is_skipped_source("merge"));
    assert!(is_skipped_source("squash"));
    assert!(!is_skipped_source("message"));
    assert!(!is_skipped_source(""));
}

#[test]
fn hook_args_need_the_message_file() {
    assert_eq!(hook_args(&vec![]), None);
    assert_eq!(
        hook_args(&vec!["MSG".to_string()]),
        Some(("MSG".to_string(), String::new()))
    );
    assert_eq!(
        hook_args(&vec!["MSG".to_string(), "merge".to_string(), "x".to_string()]),
        Some(("MSG".to_string(), "merge".to_string()))
    );
}
