//! Ticket identifiers: validating one against the configured pattern, and finding
//! one at the start of a commit message.

use vstd::prelude::*;

use crate::regex::{regex_compiles, regex_match, regex_outcome};
use crate::text::{chars_of, concat2, debug_quote, debug_text, first_word, string_of, words_exec};

verus! {

/// Why a ticket was refused.
#[derive(Debug, Clone, PartialEq, Eq)]
pub enum TicketError {
    /// The configured pattern is not a valid regular expression.
    InvalidPattern { pattern: String },
    /// The ticket does not match the pattern.
    NoMatch { ticket: String, pattern: String },
}

impl TicketError {
    /// The text shown to the user.
    pub fn message(&self) -> (m: String)
        ensures
            m@ == match self {
                TicketError::InvalidPattern { pattern } => "invalid ticket.pattern: "@ + pattern@,
                TicketError::NoMatch { ticket, pattern } => "ticket "@ + debug_text(ticket@)
                    + " does not match pattern "@ + pattern@,
            },
    {
        match self {
            TicketError::InvalidPattern { pattern } => concat2(
                "invalid ticket.pattern: ",
                pattern.as_str(),
            ),
            TicketError::NoMatch { ticket, pattern } => {
                let q = debug_quote(ticket.as_str());
                let a = concat2("ticket ", q.as_str());
                let b = concat2(a.as_str(), " does not match pattern ");
                concat2(b.as_str(), pattern.as_str())
            },
        }
    }
}

/// Accepts `s` when the ticket pattern matches it. Refuses with `NoMatch` when the
/// pattern compiles and does not match, and with `InvalidPattern` when it does not
/// compile.
pub fn validate(s: &str, pattern: &str) -> (r: Result<(), TicketError>)
    ensures
        r is Ok <==> regex_outcome(pattern@, s@) == Some(true),
        (r matches Err(TicketError::InvalidPattern { .. })) <==> regex_outcome(pattern@, s@) is None,
        r matches Err(TicketError::InvalidPattern { pattern: p }) ==> p@ == pattern@,
        r matches Err(TicketError::NoMatch { ticket, pattern: p }) ==> ticket@ == s@ && p@
            == pattern@,
{
    match regex_match(pattern, s) {
        Some(true) => Ok(()),
        Some(false) => Err(TicketError::NoMatch { ticket: s.to_owned(), pattern: pattern.to_owned() }),
        None => Err(TicketError::InvalidPattern { pattern: pattern.to_owned() }),
    }
}

/// The ticket at the start of `message`, as a ticket-prefix check reads it: the
/// first white-space separated word, when the pattern matches it.
pub open spec fn prefix_ticket(message: Seq<char>, pattern: Seq<char>) -> Option<Seq<char>> {
    match first_word(message) {
        Some(w) => if regex_outcome(pattern, w) == Some(true) {
            Some(w)
        } else {
            None
        },
        None => None,
    }
}

/// The first white-space separated word of `message`, when `pattern` matches it
/// (`None` also when the pattern does not compile).
pub fn extract_prefix(message: &str, pattern: &str) -> (r: Option<String>)
    ensures
        r matches Some(t) ==> prefix_ticket(message@, pattern@) == Some(t@),
        r is None ==> prefix_ticket(message@, pattern@) is None,
{
    let cs = chars_of(message);
    let ws = words_exec(cs.as_slice());
    if ws.len() == 0 {
        return None;
    }
    let first = string_of(ws[0].as_slice());
    match regex_match(pattern, first.as_str()) {
        Some(true) => Some(first),
        _ => None,
    }
}

/// Accepts a ticket pattern that compiles; refuses one that does not.
pub fn check_pattern(pattern: &str) -> (r: Result<(), TicketError>)
    ensures
        r is Ok <==> regex_compiles(pattern@),
        r is Err ==> r matches Err(TicketError::InvalidPattern { .. }),
        r matches Err(TicketError::InvalidPattern { pattern: p }) ==> p@ == pattern@,
{
    match regex_match(pattern, "") {
        Some(_) => Ok(()),
        None => Err(TicketError::InvalidPattern { pattern: pattern.to_owned() }),
    }
}

} // verus!
