//! `tix start`: the name of the branch it creates, and what it reports.

use vstd::prelude::*;

use crate::slug::{slug_of, slugify};
use crate::text::{chars_of, slice_chars, string_of};

verus! {

/// The longest slug `tix start` puts in a branch name.
pub const SLUG_MAX_LEN: usize = 50;

/// `PREFIX/TICKET-SLUG`, or `PREFIX/TICKET` when there is no description or it
/// slugifies to nothing.
pub open spec fn branch_name(prefix: Seq<char>, ticket: Seq<char>, description: Option<Seq<char>>) -> Seq<char> {
    match description {
        Some(d) if slug_of(d, SLUG_MAX_LEN as nat).len() > 0 => prefix + "/"@ + ticket + "-"@ + slug_of(
            d,
            SLUG_MAX_LEN as nat,
        ),
        _ => prefix + "/"@ + ticket,
    }
}

/// The name of a new branch for `ticket` under `prefix`, with the slug of the
/// description (at most `SLUG_MAX_LEN` characters) appended when it is not empty.
pub fn compose_branch_name(prefix: &str, ticket: &str, description: Option<&str>) -> (name: String)
    ensures
        name@ == branch_name(
            prefix@,
            ticket@,
            match description {
                Some(d) => Some(d@),
                None => None,
            },
        ),
{
    let mut name = prefix.to_owned();
    name.append("/");
    name.append(ticket);
    if let Some(d) = description {
        let s = slugify(d, SLUG_MAX_LEN);
        if s.unicode_len() > 0 {
            name.append("-");
            name.append(s.as_str());
        }
    }
    name
}


/// The commit `head` as `tix start` shows it: its first seven characters.
pub open spec fn short_commit(head: Seq<char>) -> Seq<char> {
    if head.len() <= 7 {
        head
    } else {
        head.take(7)
    }
}

/// The line `tix start` prints once the branch exists.
pub fn started_message(branch: &str, base: &str, head: &str, ticket: &str) -> (m: String)
    ensures
        m@ == "Started "@ + branch@ + " off "@ + base@ + " @ "@ + short_commit(head@) + " with ticket "@ + ticket@,
{
    let hc = chars_of(head);
    let n: usize = if hc.len() <= 7 {
        hc.len()
    } else {
        7
    };
    let short = string_of(slice_chars(hc.as_slice(), 0, n).as_slice());
    assert(short@ =~= short_commit(head@));
    let mut m = "Started ".to_owned();
    m.append(branch);
    m.append(" off ");
    m.append(base);
    m.append(" @ ");
    m.append(short.as_str());
    m.append(" with ticket ");
    m.append(ticket);
    m
}

} // verus!
