//! `pre-commit`: refusing commits on protected branches, and asking for the ticket
//! of a branch seen for the first time.

use vstd::prelude::*;

use crate::commands::config_cmd::{format_source, source_label};
use crate::config::Source;
use crate::hooks::pre_push::{first_matching, first_matching_pattern};
use crate::regex::regex_match;
use crate::regex::regex_outcome;
use crate::text::{chars_of, debug_quote, debug_text, decimal, string_of, strings_view, trim, trim_chars, u64_to_decimal};

verus! {

/// How many answers the ticket prompt accepts before giving up.
pub const MAX_RETRIES: usize = 3;

/// What the hook does with a commit.
#[derive(Debug, Clone, PartialEq, Eq)]
pub enum PreCommitAction {
    /// The branch is protected: refuse with this message.
    Block(String),
    /// The branch already has an entry (a ticket or no-ticket mode): let it through.
    Allow,
    /// The branch has no entry yet: ask for its ticket.
    Prompt,
}

/// The message that refuses a commit on a protected branch.
pub open spec fn commit_block_text(branch: Seq<char>, pattern: Seq<char>, source: Seq<char>) -> Seq<char> {
    "commit blocked: branch '"@ + branch + "' matches protected pattern '"@ + pattern + "' (from "@
        + source + ")\npass --no-verify to bypass."@
}

/// Decides what the hook does with a commit on `branch`: refuse it when a protected
/// pattern matches the branch; otherwise let it through when the branch has an
/// entry, and ask for a ticket when it has none.
pub fn pre_commit_action(branch: &str, protected: &Vec<String>, source: Option<Source>, has_entry: bool) -> (a: PreCommitAction)
    ensures
        match first_matching(strings_view(protected@), branch@) {
            Some(p) => (a matches PreCommitAction::Block(m) && m@ == commit_block_text(branch@, p, source_label(source))),
            None => a == (if has_entry { PreCommitAction::Allow } else { PreCommitAction::Prompt }),
        },
{
    match first_matching_pattern(branch, protected) {
        Some(p) => {
            let mut m = "commit blocked: branch '".to_owned();
            m.append(branch);
            m.append("' matches protected pattern '");
            m.append(p.as_str());
            m.append("' (from ");
            let label = match source {
                Some(s) => format_source(s),
                None => "?",
            };
            m.append(label);
            m.append(")\npass --no-verify to bypass.");
            PreCommitAction::Block(m)
        },
        None => if has_entry {
            PreCommitAction::Allow
        } else {
            PreCommitAction::Prompt
        },
    }
}

/// The question the ticket prompt asks.
pub fn ticket_question(branch: &str) -> (q: String)
    ensures
        q@ == "Ticket for branch '"@ + branch@ + "' (blank for no-ticket):"@,
{
    let mut q = "Ticket for branch '".to_owned();
    q.append(branch);
    q.append("' (blank for no-ticket):");
    q
}

/// What one answer to the ticket prompt leads to.
#[derive(Debug, Clone, PartialEq, Eq)]
pub enum PromptStep {
    /// A blank answer: the branch goes into no-ticket mode.
    NoTicket,
    /// An answer the pattern accepts: the branch gets this ticket.
    Ticket(String),
    /// A refused answer with attempts left: show the warning and ask again.
    Retry(String),
    /// A refused last answer: show the warning, then fail with the error.
    GiveUp(String, String),
}

/// The warning for a refused answer.
pub open spec fn invalid_answer_text(answer: Seq<char>, pattern: Seq<char>, attempt: nat) -> Seq<char> {
    "invalid: "@ + debug_text(answer) + " does not match pattern "@ + pattern + " (attempt "@ + decimal(
        attempt + 1,
    ) + "/3)"@
}

/// Decides what the answer `input` to attempt number `attempt` (counting from 0)
/// leads to: the answer is trimmed; blank means no-ticket mode; an answer the
/// pattern matches is the ticket; any other answer is refused, and the last
/// allowed attempt gives up.
pub fn prompt_step(input: &str, pattern: &str, attempt: usize) -> (s: PromptStep)
    requires
        attempt < MAX_RETRIES,
    ensures
        trim(input@).len() == 0 ==> s == PromptStep::NoTicket,
        trim(input@).len() > 0 && regex_outcome(pattern@, trim(input@)) == Some(true) ==> (s matches PromptStep::Ticket(t) && t@ == trim(input@)),
        trim(input@).len() > 0 && regex_outcome(pattern@, trim(input@)) != Some(true) ==> if attempt + 1 < MAX_RETRIES {
            (s matches PromptStep::Retry(w) && w@ == invalid_answer_text(trim(input@), pattern@, attempt as nat))
        } else {
            (s matches PromptStep::GiveUp(w, e) && w@ == invalid_answer_text(trim(input@), pattern@, attempt as nat)
                && e@ == "ticket prompt: invalid input after 3 attempts"@)
        },
{
    let cs = chars_of(input);
    let t = trim_chars(cs.as_slice());
    let trimmed = string_of(t.as_slice());
    if t.len() == 0 {
        return PromptStep::NoTicket;
    }
    if let Some(true) = regex_match(pattern, trimmed.as_str()) {
        return PromptStep::Ticket(trimmed);
    }
    let mut w = "invalid: ".to_owned();
    let q = debug_quote(trimmed.as_str());
    w.append(q.as_str());
    w.append(" does not match pattern ");
    w.append(pattern);
    w.append(" (attempt ");
    let n = u64_to_decimal((attempt + 1) as u64);
    w.append(n.as_str());
    w.append("/3)");
    if attempt + 1 < MAX_RETRIES {
        PromptStep::Retry(w)
    } else {
        PromptStep::GiveUp(w, "ticket prompt: invalid input after 3 attempts".to_owned())
    }
}

/// What the hook reports once the branch's choice is saved.
pub fn persisted_message(branch: &str, ticket: Option<&str>) -> (m: String)
    ensures
        m@ == match ticket {
            Some(t) => "set ticket on "@ + branch@ + ": "@ + t@,
            None => "(no-ticket mode for "@ + branch@ + ")"@,
        },
{
    match ticket {
        Some(t) => {
            let mut m = "set ticket on ".to_owned();
            m.append(branch);
            m.append(": ");
            m.append(t);
            m
        },
        None => {
            let mut m = "(no-ticket mode for ".to_owned();
            m.append(branch);
            m.append(")");
            m
        },
    }
}

} // verus!
