use tix_git::commands::doctor::{
    check_git_version, check_hooks_path, check_local_hooks_path, check_repo_config, check_shims,
    check_signing_key, check_state_file, doctor_exit_code, parse_git_version, render_checks, Check,
    ShimFacts, Status,
};
use tix_git::commands::init::shim_contents;

#[test]
fn parses_apple_git_version_string() {
    assert_eq!(
        parse_git_version("git version 2.42.0 (Apple Git-117)"),
        Some((2, 42))
    );
}

#[test]
fn parses_plain_git_version() {
    assert_eq!(parse_git_version("git version 2.30.1"), Some((2, 30)));
    assert_eq!(parse_git_version("git version 3.0.0"), Some((3, 0)));
}

#[test]
fn rejects_unrecognized_version_strings() {
    assert_eq!(parse_git_version("not git"), None);
    assert_eq!(parse_git_version(""), None);
}

#[test]
fn supported_git_version_passes() {
    let c = check_git_version(Ok("git version 2.42.0".to_string()));
    assert_eq!(c.name, "git version");
    assert_eq!(c.status, Status::Pass);
    assert_eq!(c.summary, "git version 2.42.0 (\u{2265} 2.30)");
    assert_eq!(c.hint, None);
}

#[test]
fn old_git_version_fails_with_upgrade_hint() {
    let c = check_git_version(Ok("git version 2.20.1".to_string()));
    assert_eq!(c.status, Status::Fail);
    assert_eq!(c.summary, "2.20 is older than required");
    assert_eq!(c.hint.as_deref(), Some("upgrade to git \u{2265} 2.30"));
}

#[test]
fn unparsable_git_version_warns() {
    let c = check_git_version(Ok("nope".to_string()));
    assert_eq!(c.status, Status::Warn);
    assert_eq!(c.summary, "could not parse `nope`");
}

#[test]
fn missing_git_fails_with_detail() {
    let c = check_git_version(Err("no such file".to_string()));
    assert_eq!(c.name, "git available");
    assert_eq!(c.status, Status::Fail);
    assert_eq!(c.detail.as_deref(), Some("no such file"));
}

#[test]
fn hooks_path_checks() {
    let ok = check_hooks_path(Some("/h"), Some("/h"));
    assert_eq!(ok.status, Status::Pass);
    assert_eq!(ok.summary, "/h");
    let other = check_hooks_path(Some("/x"), Some("/h"));
    assert_eq!(other.status, Status::Fail);
    assert_eq!(other.summary, "set to /x, expected /h");
    let unset = check_hooks_path(None, Some("/h"));
    assert_eq!(unset.summary, "not set");
    let unresolved = check_hooks_path(Some("/x"), None);
    assert_eq!(unresolved.status, Status::Warn);
    assert_eq!(unresolved.summary, "set to /x (could not resolve managed dir)");
}

#[test]
fn local_hooks_path_checks() {
    assert_eq!(check_local_hooks_path(None, Some("/h")).status, Status::Pass);
    let same = check_local_hooks_path(Some("/h"), Some("/h"));
    assert_eq!(same.summary, "/h (matches managed dir)");
    let hidden = check_local_hooks_path(Some("/l"), Some("/h"));
    assert_eq!(hidden.status, Status::Fail);
    assert_eq!(hidden.summary, "local override hides our hooks: /l");
}

fn shim(name: &str, exists: bool, executable: bool, contents: Option<String>) -> ShimFacts {
    ShimFacts { name: name.to_string(), exists, executable, contents }
}

#[test]
fn shims_all_present_pass() {
    let hooks = vec![
        shim("pre-commit", true, true, Some(shim_contents("pre-commit"))),
        shim("prepare-commit-msg", true, true, Some(shim_contents("prepare-commit-msg"))),
        shim("pre-push", true, true, Some(shim_contents("pre-push"))),
    ];
    let c = check_shims("/hooks", true, &hooks);
    assert_eq!(c.status, Status::Pass);
    assert_eq!(c.summary, "all 3 present in /hooks");
}

#[test]
fn shims_problems_are_listed() {
    let hooks = vec![
        shim("pre-commit", false, false, None),
        shim("prepare-commit-msg", true, false, Some(shim_contents("prepare-commit-msg"))),
        shim("pre-push", true, true, Some("#!/bin/sh\n".to_string())),
    ];
    let c = check_shims("/hooks", true, &hooks);
    assert_eq!(c.status, Status::Fail);
    assert_eq!(
        c.summary,
        "missing: pre-commit; not executable: prepare-commit-msg; modified: pre-push"
    );
    let gone = check_shims("/hooks", false, &hooks);
    assert_eq!(gone.summary, "hooks dir missing: /hooks");
}

#[test]
fn config_and_state_checks() {
    assert_eq!(check_repo_config("/r/.tix.toml", false, None).summary, "no .tix.toml (using global only)");
    let bad = check_repo_config("/r/.tix.toml", true, Some("boom".to_string()));
    assert_eq!(bad.status, Status::Fail);
    assert_eq!(bad.summary, "/r/.tix.toml fails to parse");
    let st = check_state_file("/g/tix/state.json", true, None);
    assert_eq!(st.summary, "/g/tix/state.json parses");
}

#[test]
fn signing_key_checks() {
    assert_eq!(check_signing_key(None, None).summary, "commit.gpgsign not enabled (skipping)");
    assert_eq!(check_signing_key(Some("true"), Some("ABC")).summary, "user.signingKey = ABC");
    assert_eq!(check_signing_key(Some("true"), None).status, Status::Warn);
}

#[test]
fn report_lines_and_exit_code() {
    let checks = vec![
        Check::ok("a", "fine".to_string()),
        Check::warn("b", "meh".to_string(), "do x".to_string()),
        Check::fail("c", "bad".to_string(), "do y".to_string()).with_detail("why".to_string()),
    ];
    let lines = render_checks(&checks, true);
    assert_eq!(
        lines,
        vec![
            "[  OK] a: fine",
            "[WARN] b: meh",
            "       \u{2192} do x",
            "[FAIL] c: bad",
            "       \u{2192} do y",
            "       why",
        ]
    );
    assert_eq!(render_checks(&checks, false).len(), 5);
    assert_eq!(doctor_exit_code(&checks), 1);
    assert_eq!(doctor_exit_code(&checks[..2].to_vec()), 0);
}
