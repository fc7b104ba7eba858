use tix_git::commands::init::{build_plan, join_path, needs_hooks_path, shim_contents};

#[test]
fn shim_execs_tix_hook_and_tolerates_missing_binary() {
    assert_eq!(
        shim_contents("pre-push"),
        "#!/bin/sh\ncommand -v tix > /dev/null 2>&1 || exit 0\nexec tix hook pre-push \"$@\"\n"
    );
}

#[test]
fn plan_lists_hooks_hookspath_and_config() {
    let plan = build_plan("/h/hooks", "/h/config.toml", true, true, "/h/hooks");
    assert_eq!(
        plan,
        vec![
            "install hook /h/hooks/prepare-commit-msg",
            "install hook /h/hooks/pre-commit",
            "install hook /h/hooks/pre-push",
            "set git config --global core.hooksPath = /h/hooks",
            "scaffold /h/config.toml",
        ]
    );
    let plan2 = build_plan("/h/hooks/", "/h/config.toml", false, false, "/h/hooks");
    assert_eq!(plan2[0], "install hook /h/hooks/prepare-commit-msg");
    assert_eq!(plan2[3], "core.hooksPath already pointing here");
    assert_eq!(plan2[4], "/h/config.toml already exists \u{2014} leaving untouched");
}

#[test]
fn joins_path_components() {
    assert_eq!(join_path("a", "b"), "a/b");
    assert_eq!(join_path("a/", "b"), "a/b");
    assert_eq!(join_path("", "b"), "b");
}

#[test]
fn hooks_path_decision() {
    assert_eq!(needs_hooks_path(None, "/ours", false), Ok(true));
    assert_eq!(needs_hooks_path(Some("/ours"), "/ours", false), Ok(false));
    assert_eq!(needs_hooks_path(Some("/tmp/elsewhere"), "/ours", true), Ok(true));
    let err = needs_hooks_path(Some("/tmp/elsewhere"), "/ours", false).unwrap_err();
    assert!(err.contains("/tmp/elsewhere") && err.contains("--force"));
}
