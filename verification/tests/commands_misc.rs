use tix_git::commands::amend::{
    amend_preview, amend_question, amend_result_message, amend_skipped_message, count_marked, force_question,
    marked_on_remote, plan_amend, preview_line, record_amend, AmendDecision, CommitInfo,
};
use tix_git::commands::init::init_report_lines;
use tix_git::commands::set_ticket::{cleared_message, record_ticket, set_ticket_message};
use tix_git::commands::show::{branch_line, show_lines};
use tix_git::commands::start::started_message;
use tix_git::commands::ticket_url::{check_template, ticket_url};
use tix_git::commands::uninstall::{nothing_to_do_lines, uninstall_plan, uninstall_report_lines};
use tix_git::config::Config;
use tix_git::state::{BranchEntry, State, Timestamp};

fn at(secs: i64) -> Timestamp {
    Timestamp { secs, nanos: 0 }
}

#[test]
fn record_ticket_keeps_amended_point_and_reports_previous() {
    let mut st = State::empty();
    st.set_branch(
        "feat",
        BranchEntry { ticket: Some("A-1".to_string()), set_at: at(1), amended_through: Some("abc".to_string()) },
    );
    let prev = record_ticket(&mut st, "feat", Some("B-2".to_string()), at(5));
    assert_eq!(prev.as_deref(), Some("A-1"));
    let e = st.get_branch("feat").unwrap();
    assert_eq!(e.ticket.as_deref(), Some("B-2"));
    assert_eq!(e.set_at, at(5));
    assert_eq!(e.amended_through.as_deref(), Some("abc"));
    let prev = record_ticket(&mut st, "other", None, at(6));
    assert_eq!(prev, None);
    assert_eq!(st.get_branch("other").unwrap().ticket, None);
    assert_eq!(st.get_branch("feat").unwrap().ticket.as_deref(), Some("B-2"));
}

#[test]
fn set_ticket_messages() {
    assert_eq!(set_ticket_message("f", None, "A-1"), "set ticket on f: A-1");
    assert_eq!(set_ticket_message("f", Some("A-1"), "A-1"), "ticket A-1 already set on f");
    assert_eq!(set_ticket_message("f", Some("A-1"), "B-2"), "set ticket on f: A-1 \u{2192} B-2");
    assert_eq!(cleared_message("f"), "cleared ticket on f (no-ticket mode)");
}

#[test]
fn ticket_url_substitutes_every_placeholder() {
    let e = BranchEntry { ticket: Some("POD-9".to_string()), set_at: at(0), amended_through: None };
    assert_eq!(
        ticket_url("https://x/browse/{ticket}?k={ticket}", "f", Some(&e)),
        Ok("https://x/browse/POD-9?k=POD-9".to_string())
    );
}

#[test]
fn ticket_url_errors() {
    let none = BranchEntry { ticket: None, set_at: at(0), amended_through: None };
    assert!(ticket_url("", "f", Some(&none)).unwrap_err().starts_with("integrations.ticket_url_template is empty"));
    assert!(check_template("").is_err());
    assert_eq!(check_template("u"), Ok(()));
    assert_eq!(
        ticket_url("u/{ticket}", "f", Some(&none)),
        Err("branch 'f' is in no-ticket mode; nothing to open".to_string())
    );
    assert_eq!(
        ticket_url("u/{ticket}", "f", None),
        Err("branch 'f' has no ticket \u{2014} run `tix set-ticket <ID>` first".to_string())
    );
}

#[test]
fn show_in_repo_marks_current_branch() {
    let c = Config::defaults();
    let mut st = State::empty();
    st.set_branch("main", BranchEntry { ticket: None, set_at: at(0), amended_through: None });
    let lines = show_lines(true, Some("main"), Some(&st), &c);
    assert_eq!(lines[0], "Branch: main");
    assert_eq!(lines[1], "Ticket: (no-ticket mode)");
    assert_eq!(lines[2], "Protected branches:");
    assert_eq!(lines[3], "  - main  \u{2190} current");
    assert_eq!(lines[4], "  - master");
    assert_eq!(lines[7], "Base: main");
    assert_eq!(lines[8], "Config sources:");
    assert_eq!(lines[9], "  - ticket pattern (ticket.pattern): default");
    assert_eq!(lines.len(), 17);
}

#[test]
fn show_outside_repo() {
    let c = Config::defaults();
    let lines = show_lines(false, None, None, &c);
    assert_eq!(lines[0], "Branch: (not in a git repo)");
    assert_eq!(lines[1], "Config sources:");
    assert_eq!(lines.len(), 10);
    assert_eq!(branch_line(true, None), "Branch: (detached HEAD or no commits yet)");
    let st = State::empty();
    let lines = show_lines(true, Some("feat/x"), Some(&st), &c);
    assert_eq!(lines[1], "Ticket: (not set \u{2014} first commit will prompt)");
}

#[test]
fn start_reports_short_commit() {
    assert_eq!(
        started_message("feature/A-1", "main", "0123456789abcdef", "A-1"),
        "Started feature/A-1 off main @ 0123456 with ticket A-1"
    );
    assert_eq!(started_message("b", "m", "abc", "T"), "Started b off m @ abc with ticket T");
}

#[test]
fn uninstall_plan_lines() {
    let owned = vec!["/h/pre-commit".to_string()];
    let p = uninstall_plan(&owned, Some("/h"), "/h", false, "/c/config.toml", true, "/c", true);
    assert_eq!(
        p.lines,
        vec![
            "remove /h/pre-commit",
            "unset git config --global core.hooksPath",
            "leave /c/config.toml (use --purge to remove)",
        ]
    );
    assert!(p.actionable);
    assert!(p.unset_hooks_path);
    let p = uninstall_plan(&vec![], Some("/other"), "/h", true, "/c/config.toml", true, "/c", true);
    assert_eq!(
        p.lines,
        vec![
            "leave core.hooksPath = `/other` (not managed by tix)",
            "remove /c/config.toml",
            "remove /c (if empty)",
        ]
    );
    assert_eq!(p.foreign_hooks_path.as_deref(), Some("/other"));
    assert_eq!(
        nothing_to_do_lines(Some("/o")),
        vec!["tix uninstall: nothing to do", "  - core.hooksPath = `/o` (not managed by tix; left alone)"]
    );
}

fn commit(sha: &str, subject: &str, on_remote: bool) -> CommitInfo {
    CommitInfo { sha: sha.to_string(), subject: subject.to_string(), on_remote }
}

#[test]
fn amend_marks_commits_without_a_ticket() {
    let pattern = r"^[A-Z]+-\d+$";
    let commits = vec![commit("a1", "first commit", false), commit("b2", "POD-9 already tagged", false), commit("c3", "third", false)];
    assert_eq!(plan_amend(&commits, pattern, false), AmendDecision::Rewrite(vec![true, false, true]));
    let tagged = vec![commit("a1", "POD-9 done", true)];
    assert_eq!(plan_amend(&tagged, pattern, false), AmendDecision::NothingToDo);
}

#[test]
fn amend_refuses_pushed_commits_without_force() {
    let pattern = r"^[A-Z]+-\d+$";
    let commits = vec![commit("a1", "first commit", true), commit("b2", "second commit", true)];
    match plan_amend(&commits, pattern, false) {
        AmendDecision::Refuse(m) => assert!(m.contains("--force")),
        other => panic!("unexpected {other:?}"),
    }
    assert_eq!(plan_amend(&commits, pattern, true), AmendDecision::Rewrite(vec![true, true]));
}

#[test]
fn amend_preview_and_messages() {
    let c = commit("0123456789abcdef", "fix bug", false);
    assert_eq!(preview_line(&c, "{ticket} {message}", "POD-1"), "  0123456 fix bug \u{2192} POD-1 fix bug");
    assert_eq!(amend_question(3, "POD-1"), "amend 3 commits to prefix POD-1?");
    assert!(amend_skipped_message("main").contains("skipped retroactive amend"));
    let mut st = State::empty();
    st.set_branch("f", BranchEntry { ticket: Some("POD-1".to_string()), set_at: at(3), amended_through: None });
    record_amend(&mut st, "f", "cafe");
    let e = st.get_branch("f").unwrap();
    assert_eq!(e.amended_through.as_deref(), Some("cafe"));
    assert_eq!(e.ticket.as_deref(), Some("POD-1"));
    assert_eq!(e.set_at, at(3));
}

#[test]
fn amend_preview_lists_marked_commits() {
    let commits = vec![commit("aaaaaaaaaa", "one", false), commit("bbbbbbbbbb", "POD-2 two", true), commit("cc", "three", false)];
    let marks = vec![true, false, true];
    assert_eq!(count_marked(&marks), 2);
    assert_eq!(
        amend_preview(&commits, &marks, "{ticket} {message}", "POD-1"),
        vec![
            "commits without a ticket:",
            "  aaaaaaa one \u{2192} POD-1 one",
            "  cc three \u{2192} POD-1 three",
        ]
    );
    assert!(!marked_on_remote(&commits, &marks));
    assert!(marked_on_remote(&commits, &vec![false, true, false]));
    assert!(force_question().contains("force-push"));
    assert_eq!(amend_result_message(true, 2), "amended 2 commits");
    assert_eq!(amend_result_message(false, 2), "left the commits as they are");
}

#[test]
fn init_and_uninstall_reports() {
    let plan = vec!["a".to_string(), "b".to_string()];
    assert_eq!(init_report_lines(true, &plan), vec!["tix init (dry run) \u{2014} would:", "  - a", "  - b"]);
    let done = init_report_lines(false, &plan);
    assert_eq!(done[0], "tix init: ready");
    assert_eq!(done[3], "");
    assert!(done[4].starts_with("Next:"));
    assert_eq!(uninstall_report_lines(true, &plan), vec!["tix uninstall (dry run) \u{2014} would:", "  - a", "  - b"]);
    let done = uninstall_report_lines(false, &plan);
    assert_eq!(done.len(), 5);
    assert_eq!(done[0], "tix uninstall: complete");
    assert!(done[4].starts_with("Note: per-repo state"));
}
