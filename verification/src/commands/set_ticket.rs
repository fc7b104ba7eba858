//! `tix set-ticket` / `tix clear-ticket`: recording a branch's ticket (or its
//! no-ticket mode) in the clone's state.

use vstd::prelude::*;

use crate::state::{carried_entry, BranchEntry, State, Timestamp};

verus! {

/// The entry a branch gets when its ticket becomes `ticket` at `now`, after the
/// entry `prev`: what was amended stays recorded.
pub open spec fn next_entry(prev: Option<BranchEntry>, ticket: Option<String>, now: Timestamp) -> BranchEntry {
    BranchEntry {
        ticket,
        set_at: now,
        amended_through: match prev {
            Some(p) => p.amended_through,
            None => None,
        },
    }
}

/// Records `ticket` (or no-ticket mode, with `None`) for `branch` at `now`; gives
/// the ticket the branch had before, if any. Other branches keep their entries.
pub fn record_ticket(state: &mut State, branch: &str, ticket: Option<String>, now: Timestamp) -> (prev: Option<String>)
    ensures
        final(state).version == old(state).version,
        final(state).entry(branch@) == Some(next_entry(old(state).entry(branch@), ticket, now)),
        forall|k: Seq<char>| k != branch@ ==> #[trigger] final(state).entry(k) == old(state).entry(k),
        prev == match old(state).entry(branch@) {
            Some(e) => e.ticket,
            None => None,
        },
{
    let (entry, prev) = {
        let p = state.get_branch(branch);
        let prev_ticket = match p {
            Some(e) => match &e.ticket {
                Some(t) => Some(t.clone()),
                None => None,
            },
            None => None,
        };
        (carried_entry(p, ticket, now), prev_ticket)
    };
    state.set_branch(branch, entry);
    prev
}

/// What `tix set-ticket` reports, from the ticket the branch had before.
pub open spec fn set_ticket_text(branch: Seq<char>, prev: Option<Seq<char>>, ticket: Seq<char>) -> Seq<char> {
    match prev {
        Some(p) => if p == ticket {
            "ticket "@ + ticket + " already set on "@ + branch
        } else {
            "set ticket on "@ + branch + ": "@ + p + " \u{2192} "@ + ticket
        },
        None => "set ticket on "@ + branch + ": "@ + ticket,
    }
}

/// The line `tix set-ticket` prints.
pub fn set_ticket_message(branch: &str, prev: Option<&str>, ticket: &str) -> (m: String)
    ensures
        m@ == set_ticket_text(branch@, crate::commands::doctor::str_opt(prev), ticket@),
{
    match prev {
        Some(p) => {
            if crate::text::str_eq(p, ticket) {
                let mut m = "ticket ".to_owned();
                m.append(ticket);
                m.append(" already set on ");
                m.append(branch);
                m
            } else {
                let mut m = "set ticket on ".to_owned();
                m.append(branch);
                m.append(": ");
                m.append(p);
                m.append(" \u{2192} ");
                m.append(ticket);
                m
            }
        },
        None => {
            let mut m = "set ticket on ".to_owned();
            m.append(branch);
            m.append(": ");
            m.append(ticket);
            m
        },
    }
}

/// The line `tix clear-ticket` prints.
pub fn cleared_message(branch: &str) -> (m: String)
    ensures
        m@ == "cleared ticket on "@ + branch@ + " (no-ticket mode)"@,
{
    let mut m = "cleared ticket on ".to_owned();
    m.append(branch);
    m.append(" (no-ticket mode)");
    m
}

} // verus!
