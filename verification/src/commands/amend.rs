//! The retroactive amend of `tix set-ticket`: which commits get the ticket in front
//! of their subject, and when the rewrite is refused.

use vstd::prelude::*;

use crate::commands::doctor::opt_view;
use crate::commands::start::short_commit;
use crate::hooks::prepare_commit_msg::{format_line, format_with};
use crate::state::{BranchEntry, State};
use crate::text::{chars_of, decimal, slice_chars, string_of, strings_view, u64_to_decimal};
use crate::ticket::{extract_prefix, prefix_ticket};

verus! {

/// What is known about one commit of the branch that the base does not have.
#[derive(Debug, Clone, PartialEq, Eq)]
pub struct CommitInfo {
    pub sha: String,
    /// The subject line, as `git log --format=%s` gives it.
    pub subject: String,
    /// Some remote-tracking ref already holds the commit.
    pub on_remote: bool,
}

/// A commit is rewritten when its subject does not start with a ticket.
pub open spec fn needs_ticket(c: CommitInfo, pattern: Seq<char>) -> bool {
    prefix_ticket(c.subject@, pattern) is None
}

/// What the amend does.
#[derive(Debug, Clone, PartialEq, Eq)]
pub enum AmendDecision {
    /// Every commit already starts with a ticket.
    NothingToDo,
    /// A commit to rewrite is on a remote and `--force` was not given.
    Refuse(String),
    /// Rewrite the commits marked `true` (one mark per commit, in order).
    Rewrite(Vec<bool>),
}

/// The commits among `cs` that need the ticket.
pub open spec fn count_needing(cs: Seq<CommitInfo>, pattern: Seq<char>) -> nat
    decreases cs.len(),
{
    if cs.len() == 0 {
        0
    } else {
        count_needing(cs.drop_last(), pattern) + if needs_ticket(cs.last(), pattern) {
            1nat
        } else {
            0nat
        }
    }
}

/// Whether a commit that needs the ticket is already on a remote.
pub open spec fn any_pushed(cs: Seq<CommitInfo>, pattern: Seq<char>) -> bool {
    exists|i: int| 0 <= i < cs.len() && needs_ticket(cs[i], pattern) && #[trigger] cs[i].on_remote
}

/// The refusal for commits that are already on a remote.
pub open spec fn pushed_refusal() -> Seq<char> {
    "some commits to amend are already on a remote; rerun with --force to rewrite them (you will then need to force-push)"@
}

/// Decides the amend: nothing when every commit starts with a ticket; a refusal
/// when one to rewrite is on a remote and `force` is not given; otherwise the
/// commits to rewrite.
pub fn plan_amend(commits: &Vec<CommitInfo>, pattern: &str, force: bool) -> (d: AmendDecision)
    ensures
        count_needing(commits@, pattern@) == 0 ==> d == AmendDecision::NothingToDo,
        count_needing(commits@, pattern@) > 0 && any_pushed(commits@, pattern@) && !force ==> (d matches AmendDecision::Refuse(m) && m@ == pushed_refusal()),
        count_needing(commits@, pattern@) > 0 && !(any_pushed(commits@, pattern@) && !force) ==> (d matches AmendDecision::Rewrite(marks)
            && marks@.len() == commits@.len()
            && forall|i: int| 0 <= i < commits@.len() ==> #[trigger] marks@[i] == needs_ticket(commits@[i], pattern@)),
{
    let mut marks: Vec<bool> = Vec::new();
    let mut count: usize = 0;
    let mut pushed = false;
    let mut i: usize = 0;
    while i < commits.len()
        invariant
            i <= commits@.len(),
            marks@.len() == i,
            count == count_needing(commits@.take(i as int), pattern@),
            count <= i,
            forall|j: int| 0 <= j < i ==> #[trigger] marks@[j] == needs_ticket(commits@[j], pattern@),
            pushed == exists|j: int| 0 <= j < i && needs_ticket(commits@[j], pattern@) && #[trigger] commits@[j].on_remote,
        decreases commits@.len() - i,
    {
        assert(commits@.take(i + 1).drop_last() =~= commits@.take(i as int));
        let needs = extract_prefix(commits[i].subject.as_str(), pattern).is_none();
        marks.push(needs);
        if needs {
            count = count + 1;
            if commits[i].on_remote {
                pushed = true;
            }
        }
        assert(pushed == exists|j: int| 0 <= j < i + 1 && needs_ticket(commits@[j], pattern@) && #[trigger] commits@[j].on_remote) by {
            if !pushed {
                assert forall|j: int| 0 <= j < i + 1 && needs_ticket(commits@[j], pattern@) implies !(#[trigger] commits@[j].on_remote) by {
                    if j == i {
                    }
                }
            }
        }
        i += 1;
    }
    assert(commits@.take(commits@.len() as int) =~= commits@);
    if count == 0 {
        AmendDecision::NothingToDo
    } else if pushed && !force {
        AmendDecision::Refuse(
            "some commits to amend are already on a remote; rerun with --force to rewrite them (you will then need to force-push)".to_owned(),
        )
    } else {
        AmendDecision::Rewrite(marks)
    }
}

/// The line previewing the rewrite of one commit: its short name, its subject and
/// the subject it will have.
pub open spec fn preview_text(sha: Seq<char>, subject: Seq<char>, prefix_format: Seq<char>, ticket: Seq<char>) -> Seq<char> {
    "  "@ + short_commit(sha) + " "@ + subject + " \u{2192} "@ + format_with(prefix_format, ticket, subject)
}

/// The preview line for one commit.
pub fn preview_line(commit: &CommitInfo, prefix_format: &str, ticket: &str) -> (l: String)
    ensures
        l@ == preview_text(commit.sha@, commit.subject@, prefix_format@, ticket@),
{
    let hc = chars_of(commit.sha.as_str());
    let n: usize = if hc.len() <= 7 {
        hc.len()
    } else {
        7
    };
    let short = string_of(slice_chars(hc.as_slice(), 0, n).as_slice());
    assert(short@ =~= short_commit(commit.sha@));
    let mut l = "  ".to_owned();
    l.append(short.as_str());
    l.append(" ");
    l.append(commit.subject.as_str());
    l.append(" \u{2192} ");
    let new_subject = format_line(prefix_format, ticket, commit.subject.as_str());
    l.append(new_subject.as_str());
    l
}

/// The question asked before rewriting `n` commits.
pub fn amend_question(n: usize, ticket: &str) -> (q: String)
    ensures
        q@ == "amend "@ + decimal(n as nat) + " commits to prefix "@ + ticket@ + "?"@,
{
    let mut q = "amend ".to_owned();
    let d = u64_to_decimal(n as u64);
    q.append(d.as_str());
    q.append(" commits to prefix ");
    q.append(ticket);
    q.append("?");
    q
}

/// The note given when the base of the branch cannot be found, so nothing is
/// rewritten.
pub fn amend_skipped_message(base: &str) -> (m: String)
    ensures
        m@ == "skipped retroactive amend: origin/"@ + base@ + " not found"@,
{
    let mut m = "skipped retroactive amend: origin/".to_owned();
    m.append(base);
    m.append(" not found");
    m
}

/// Records that the branch's commits were rewritten up to `head`; the branch keeps
/// its ticket and when it was set, and the other branches keep their entries. A
/// branch without an entry is left without one.
pub fn record_amend(state: &mut State, branch: &str, head: &str)
    ensures
        old(state).entry(branch@) is None ==> *final(state) == *old(state),
        old(state).entry(branch@) is Some ==> {
            &&& final(state).version == old(state).version
            &&& final(state).entry(branch@) matches Some(e) && opt_view(e.ticket) == opt_view(
                old(state).entry(branch@)->0.ticket,
            ) && e.set_at == old(state).entry(branch@)->0.set_at && opt_view(e.amended_through) == Some(head@)
            &&& forall|k: Seq<char>| k != branch@ ==> #[trigger] final(state).entry(k) == old(state).entry(k)
        },
{
    let entry = match state.get_branch(branch) {
        Some(e) => {
            let ticket = match &e.ticket {
                Some(t) => Some(t.clone()),
                None => None,
            };
            BranchEntry { ticket, set_at: e.set_at, amended_through: Some(head.to_owned()) }
        },
        None => {
            return;
        },
    };
    state.set_branch(branch, entry);
}


/// How many of `marks` are set.
pub open spec fn marked_count(marks: Seq<bool>) -> nat
    decreases marks.len(),
{
    if marks.len() == 0 {
        0
    } else {
        marked_count(marks.drop_last()) + if marks.last() {
            1nat
        } else {
            0nat
        }
    }
}

/// How many commits are to be rewritten.
pub fn count_marked(marks: &Vec<bool>) -> (n: usize)
    ensures
        n == marked_count(marks@),
{
    let mut n: usize = 0;
    let mut i: usize = 0;
    while i < marks.len()
        invariant
            i <= marks@.len(),
            n == marked_count(marks@.take(i as int)),
            n <= i,
        decreases marks@.len() - i,
    {
        assert(marks@.take(i + 1).drop_last() =~= marks@.take(i as int));
        if marks[i] {
            n = n + 1;
        }
        i += 1;
    }
    assert(marks@.take(marks@.len() as int) =~= marks@);
    n
}

/// The preview of the rewrite: a heading, then one line for each marked commit.
pub open spec fn preview_lines_of(commits: Seq<CommitInfo>, marks: Seq<bool>, prefix_format: Seq<char>, ticket: Seq<char>) -> Seq<Seq<char>>
    decreases commits.len(),
{
    if commits.len() == 0 || marks.len() != commits.len() {
        seq!["commits without a ticket:"@]
    } else {
        preview_lines_of(commits.drop_last(), marks.drop_last(), prefix_format, ticket) + if marks.last() {
            seq![preview_text(commits.last().sha@, commits.last().subject@, prefix_format, ticket)]
        } else {
            Seq::empty()
        }
    }
}

/// The preview `tix set-ticket` shows before rewriting the marked commits.
pub fn amend_preview(commits: &Vec<CommitInfo>, marks: &Vec<bool>, prefix_format: &str, ticket: &str) -> (lines: Vec<String>)
    requires
        marks@.len() == commits@.len(),
    ensures
        strings_view(lines@) == preview_lines_of(commits@, marks@, prefix_format@, ticket@),
{
    let mut lines: Vec<String> = Vec::new();
    lines.push("commits without a ticket:".to_owned());
    let mut i: usize = 0;
    assert(strings_view(lines@) =~= preview_lines_of(commits@.take(0), marks@.take(0), prefix_format@, ticket@));
    while i < commits.len()
        invariant
            i <= commits@.len(),
            marks@.len() == commits@.len(),
            strings_view(lines@) == preview_lines_of(commits@.take(i as int), marks@.take(i as int), prefix_format@, ticket@),
        decreases commits@.len() - i,
    {
        assert(commits@.take(i + 1).drop_last() =~= commits@.take(i as int));
        assert(marks@.take(i + 1).drop_last() =~= marks@.take(i as int));
        let ghost before = strings_view(lines@);
        if marks[i] {
            lines.push(preview_line(&commits[i], prefix_format, ticket));
            assert(strings_view(lines@) =~= before.push(lines@.last()@));
        } else {
            assert(strings_view(lines@) =~= before + Seq::<Seq<char>>::empty());
        }
        i += 1;
    }
    assert(commits@.take(commits@.len() as int) =~= commits@);
    assert(marks@.take(marks@.len() as int) =~= marks@);
    lines
}

/// The second question asked when commits to rewrite are already on a remote.
pub fn force_question() -> (q: &'static str)
    ensures
        q@ == "these commits are on a remote; rewriting them means a force-push later. continue?"@,
{
    "these commits are on a remote; rewriting them means a force-push later. continue?"
}

/// What `tix set-ticket` reports after the amend question: the rewrite of `count`
/// commits, or that they were left as they are.
pub fn amend_result_message(done: bool, count: usize) -> (m: String)
    ensures
        done ==> m@ == "amended "@ + decimal(count as nat) + " commits"@,
        !done ==> m@ == "left the commits as they are"@,
{
    if done {
        let mut m = "amended ".to_owned();
        let d = u64_to_decimal(count as u64);
        m.append(d.as_str());
        m.append(" commits");
        m
    } else {
        "left the commits as they are".to_owned()
    }
}


/// Whether a commit marked for rewriting is already on a remote.
pub fn marked_on_remote(commits: &Vec<CommitInfo>, marks: &Vec<bool>) -> (r: bool)
    requires
        marks@.len() == commits@.len(),
    ensures
        r == exists|i: int| 0 <= i < commits@.len() && #[trigger] marks@[i] && commits@[i].on_remote,
{
    let mut i: usize = 0;
    while i < commits.len()
        invariant
            i <= commits@.len(),
            marks@.len() == commits@.len(),
            forall|j: int| 0 <= j < i ==> !(#[trigger] marks@[j] && commits@[j].on_remote),
        decreases commits@.len() - i,
    {
        if marks[i] && commits[i].on_remote {
            assert(marks@[i as int] && commits@[i as int].on_remote);
            return true;
        }
        i += 1;
    }
    false
}

} // verus!
