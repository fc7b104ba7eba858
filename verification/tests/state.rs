use tix_git::state::{carried_entry, check_version, BranchEntry, State, Timestamp, CURRENT_VERSION};

fn epoch() -> Timestamp {
    Timestamp { secs: 0, nanos: 0 }
}

#[test]
fn empty_returns_current_version_and_no_branches() {
    let s = State::empty();
    assert_eq!(s.version, CURRENT_VERSION);
    assert!(s.branches.is_empty());
}

#[test]
fn set_get_clear_branch() {
    let mut s = State::empty();
    assert!(s.get_branch("feature/x").is_none());
    s.set_branch(
        "feature/x",
        BranchEntry {
            ticket: Some("X-1".into()),
            set_at: epoch(),
            amended_through: None,
        },
    );
    assert_eq!(
        s.get_branch("feature/x").unwrap().ticket.as_deref(),
        Some("X-1")
    );
    s.clear_branch("feature/x");
    assert!(s.get_branch("feature/x").is_none());
}

#[test]
fn set_branch_replaces_and_leaves_others_alone() {
    let mut s = State::empty();
    let e = |t: &str| BranchEntry {
        ticket: Some(t.to_string()),
        set_at: epoch(),
        amended_through: None,
    };
    s.set_branch("a", e("A-1"));
    s.set_branch("b", e("B-1"));
    s.set_branch("a", e("A-2"));
    assert_eq!(s.branches.len(), 2);
    assert_eq!(s.get_branch("a").unwrap().ticket.as_deref(), Some("A-2"));
    assert_eq!(s.get_branch("b").unwrap().ticket.as_deref(), Some("B-1"));
    s.clear_branch("a");
    assert!(s.get_branch("a").is_none());
    assert_eq!(s.get_branch("b").unwrap().ticket.as_deref(), Some("B-1"));
}

#[test]
fn no_ticket_mode_is_an_entry() {
    let mut s = State::empty();
    s.set_branch(
        "main",
        BranchEntry {
            ticket: None,
            set_at: epoch(),
            amended_through: None,
        },
    );
    let e = s.get_branch("main").unwrap();
    assert!(e.ticket.is_none());
}

#[test]
fn new_entry_keeps_amended_through() {
    let prev = BranchEntry {
        ticket: Some("A-1".into()),
        set_at: epoch(),
        amended_through: Some("abc123".into()),
    };
    let at = Timestamp { secs: 10, nanos: 5 };
    let e = carried_entry(Some(&prev), None, at);
    assert_eq!(e.ticket, None);
    assert_eq!(e.set_at, at);
    assert_eq!(e.amended_through.as_deref(), Some("abc123"));
    let fresh = carried_entry(None, Some("B-2".into()), at);
    assert_eq!(fresh.amended_through, None);
}

#[test]
fn unknown_version_rejected() {
    let s = State {
        version: 999,
        branches: Vec::new(),
    };
    let msg = check_version(s, "/repo/.git/tix/state.json").unwrap_err();
    assert!(
        msg.contains("999") && msg.contains("state.json"),
        "expected version + path in error: {msg}"
    );
    assert!(check_version(State::empty(), "x").is_ok());
}
