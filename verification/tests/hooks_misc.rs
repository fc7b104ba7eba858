use tix_git::config::Source;
use tix_git::hooks::pre_commit::{
    persisted_message, pre_commit_action, prompt_step, ticket_question, PreCommitAction, PromptStep,
};
use tix_git::hooks::prepare_commit_msg::prefixed_message;
use tix_git::hooks::naming::{naming_check, stale_warning, NamingVerdict};
use tix_git::hooks::pre_push::pushed_branches;
use tix_git::hooks::{hook_kind, HookKind};

const PATTERN: &str = r"^[A-Z]+-\d+$";

fn protected() -> Vec<String> {
    vec!["main".to_string(), "release/*".to_string()]
}

#[test]
fn hook_names_dispatch() {
    assert_eq!(hook_kind("prepare-commit-msg"), Ok(HookKind::PrepareCommitMsg));
    assert_eq!(hook_kind("pre-commit"), Ok(HookKind::PreCommit));
    assert_eq!(hook_kind("pre-push"), Ok(HookKind::PrePush));
    assert_eq!(hook_kind("post-merge"), Err("unknown hook `post-merge`".to_string()));
}

#[test]
fn pre_commit_blocks_protected_branch() {
    match pre_commit_action("release/1.0", &protected(), Some(Source::Default), true) {
        PreCommitAction::Block(m) => {
            assert_eq!(
                m,
                "commit blocked: branch 'release/1.0' matches protected pattern 'release/*' (from default)\npass --no-verify to bypass."
            );
        }
        other => panic!("unexpected {other:?}"),
    }
}

#[test]
fn pre_commit_allows_known_and_prompts_new_branches() {
    assert_eq!(pre_commit_action("feat/x", &protected(), None, true), PreCommitAction::Allow);
    assert_eq!(pre_commit_action("feat/x", &protected(), None, false), PreCommitAction::Prompt);
}

#[test]
fn prompt_steps() {
    assert_eq!(prompt_step("  ", PATTERN, 0), PromptStep::NoTicket);
    assert_eq!(prompt_step(" POD-7 ", PATTERN, 0), PromptStep::Ticket("POD-7".to_string()));
    assert_eq!(
        prompt_step("nope", PATTERN, 0),
        PromptStep::Retry(format!("invalid: \"nope\" does not match pattern {PATTERN} (attempt 1/3)"))
    );
    assert_eq!(
        prompt_step("bad3", PATTERN, 2),
        PromptStep::GiveUp(
            format!("invalid: \"bad3\" does not match pattern {PATTERN} (attempt 3/3)"),
            "ticket prompt: invalid input after 3 attempts".to_string()
        )
    );
    let q = ticket_question("feature/x");
    assert!(q.contains("feature/x"));
    assert!(q.contains("blank"));
    assert_eq!(persisted_message("main", Some("POD-1")), "set ticket on main: POD-1");
    assert_eq!(persisted_message("main", None), "(no-ticket mode for main)");
}

#[test]
fn prefixing_twice_changes_nothing_the_second_time() {
    let once = prefixed_message("fix login\n\nbody\n", PATTERN, "{ticket} {message}", "POD-1")
        .unwrap()
        .unwrap();
    assert_eq!(once, "POD-1 fix login\n\nbody\n");
    assert_eq!(prefixed_message(&once, PATTERN, "{ticket} {message}", "POD-1").unwrap(), None);
    let empty = prefixed_message("# comment only\n", PATTERN, "{ticket} {message}", "POD-1")
        .unwrap()
        .unwrap();
    assert_eq!(empty, "POD-1 \n# comment only\n");
    assert_eq!(prefixed_message(&empty, PATTERN, "{ticket} {message}", "POD-1").unwrap(), None);
}

#[test]
fn naming_convention_modes() {
    let pattern = r"^(feature|bugfix|hotfix|chore)/[A-Z]+-\d+(-.+)?$";
    assert_eq!(naming_check("feature/POD-1-x", pattern, "block"), NamingVerdict::Conforms);
    assert_eq!(naming_check("wip", pattern, "off"), NamingVerdict::Conforms);
    assert_eq!(
        naming_check("wip", pattern, "warn"),
        NamingVerdict::Warn(format!("warning: branch 'wip' does not match naming pattern {pattern}"))
    );
    match naming_check("wip", pattern, "block") {
        NamingVerdict::Block(m) => {
            assert!(m.starts_with("branch 'wip' does not match naming pattern "));
            assert!(m.contains("git branch -m"));
        }
        other => panic!("unexpected {other:?}"),
    }
}

#[test]
fn stale_warning_only_past_the_threshold() {
    assert_eq!(stale_warning("f", "main", 50, 50), None);
    assert_eq!(stale_warning("f", "main", 500, 0), None);
    assert_eq!(
        stale_warning("f", "main", 51, 50).as_deref(),
        Some("warning: f is 51 commits behind origin/main; consider `git rebase origin/main`")
    );
}

#[test]
fn pushed_branches_skip_deletions() {
    let input = "refs/heads/wip abc123 refs/heads/wip 000000\nrefs/heads/old 0000000000 refs/heads/old def456\n";
    assert_eq!(pushed_branches(input), vec!["wip".to_string()]);
    assert_eq!(pushed_branches(""), Vec::<String>::new());
}
