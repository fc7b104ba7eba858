use tix_git::paths::{
    config_dir_from, config_file_in, global_config_path, repo_config_path, state_path, tix_config_dir,
};
use tix_git::prompt::{confirm_answer, confirm_prompt, line_answer, line_prompt, require_tty};

#[test]
fn config_dir_prefers_xdg() {
    assert_eq!(config_dir_from(Some("/x"), Some("/home/u")), Some("/x/tix".to_string()));
    assert_eq!(config_dir_from(Some(""), Some("/home/u")), Some("/home/u/.config/tix".to_string()));
    assert_eq!(config_dir_from(None, None), None);
    assert_eq!(tix_config_dir(Some("/x")), Some("/x/tix".to_string()));
}

#[test]
fn file_locations() {
    assert_eq!(config_file_in("/c/tix"), "/c/tix/config.toml");
    assert_eq!(global_config_path(Some("/x")), Some("/x/tix/config.toml".to_string()));
    assert_eq!(repo_config_path("/r"), "/r/.tix.toml");
    assert_eq!(state_path("/r/.git"), "/r/.git/tix/state.json");
    assert_eq!(state_path("/r/.git/"), "/r/.git/tix/state.json");
}

#[test]
fn confirm_errors_without_tty() {
    let question = confirm_prompt("ok?", true);
    assert_eq!(question, "ok? [Y/n] ");
    let msg = require_tty(false).unwrap_err();
    assert!(msg.contains("not a terminal"), "expected TTY error: {msg}");
}

#[test]
fn line_errors_without_tty() {
    let question = line_prompt("name?");
    assert_eq!(question, "name? ");
    let msg = require_tty(false).unwrap_err();
    assert!(msg.contains("not a terminal"), "expected TTY error: {msg}");
}

#[test]
fn tty_error_includes_command_hint() {
    let msg = require_tty(false).unwrap_err();
    assert!(
        msg.contains("tix set-ticket") || msg.contains("tix clear-ticket"),
        "expected command hint: {msg}"
    );
    assert_eq!(require_tty(true), Ok(()));
}

#[test]
fn confirm_answers() {
    assert_eq!(confirm_prompt("ok?", true), "ok? [Y/n] ");
    assert_eq!(confirm_prompt("ok?", false), "ok? [y/N] ");
    assert_eq!(confirm_answer("\n", true), Ok(true));
    assert_eq!(confirm_answer(" YES \n", false), Ok(true));
    assert_eq!(confirm_answer("n", true), Ok(false));
    assert_eq!(confirm_answer("No", true), Ok(false));
    assert_eq!(confirm_answer("Maybe", true), Err("invalid response: \"maybe\"".to_string()));
    assert_eq!(line_prompt("name?"), "name? ");
    assert_eq!(line_answer("  POD-1 \n"), "POD-1");
}
