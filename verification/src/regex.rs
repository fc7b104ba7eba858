//! The regular-expression engine of the `regex` crate, behind trusted items.

use vstd::prelude::*;

verus! {

/// Whether `regex::Regex::new` accepts `pattern`.
pub uninterp spec fn regex_compiles(pattern: Seq<char>) -> bool;

/// Whether the regex compiled from `pattern` matches somewhere in `text`
/// (`regex::Regex::is_match`).
pub uninterp spec fn regex_is_match(pattern: Seq<char>, text: Seq<char>) -> bool;

/// What matching `text` against `pattern` gives: `None` when the pattern does not
/// compile, otherwise whether it matches.
pub open spec fn regex_outcome(pattern: Seq<char>, text: Seq<char>) -> Option<bool> {
    if regex_compiles(pattern) {
        Some(regex_is_match(pattern, text))
    } else {
        None
    }
}

/// Compiles `pattern` with `regex::Regex::new` and, when it compiles, tests it
/// against `text` with `regex::Regex::is_match`. The contract claims only that the
/// outcome is a function of the two strings; what the engine accepts and matches is
/// left to the `regex` crate.
#[verifier::external_body]
pub fn regex_match(pattern: &str, text: &str) -> (r: Option<bool>)
    ensures
        r is Some <==> regex_compiles(pattern@),
        r matches Some(b) ==> b == regex_is_match(pattern@, text@),
{
    match regex::Regex::new(pattern) {
        Ok(re) => Some(re.is_match(text)),
        Err(_) => None,
    }
}


} // verus!

verus! {

/// The capture groups of the first match of `pattern` in `text`
/// (`regex::Regex::captures`): group 0 is the whole match, a group that did not
/// take part is `None`; `None` overall when there is no match.
pub uninterp spec fn regex_capture_groups(pattern: Seq<char>, text: Seq<char>) -> Option<Seq<Option<Seq<char>>>>;

/// The mathematical value of a list of optional strings.
pub open spec fn opt_strings_view(v: Seq<Option<String>>) -> Seq<Option<Seq<char>>> {
    v.map_values(|o: Option<String>| match o {
        Some(s) => Some(s@),
        None => None,
    })
}

/// Compiles `pattern` with `regex::Regex::new` and, when it compiles, returns the
/// capture groups of its first match in `text` (`regex::Regex::captures`). The
/// contract claims that a compile failure is `Err`, that there are groups exactly
/// when the pattern matches, and names the groups.
#[verifier::external_body]
pub fn regex_captures(pattern: &str, text: &str) -> (r: Result<Option<Vec<Option<String>>>, ()>)
    ensures
        r is Err <==> !regex_compiles(pattern@),
        r matches Ok(c) ==> (c is Some <==> regex_is_match(pattern@, text@)),
        r matches Ok(Some(g)) ==> regex_capture_groups(pattern@, text@) == Some(opt_strings_view(g@)),
        r matches Ok(None) ==> regex_capture_groups(pattern@, text@) is None,
{
    match regex::Regex::new(pattern) {
        Err(_) => Err(()),
        Ok(re) => match re.captures(text) {
            None => Ok(None),
            Some(caps) => {
                let mut groups = Vec::new();
                for m in caps.iter() {
                    groups.push(m.map(|m| m.as_str().to_string()));
                }
                Ok(Some(groups))
            },
        },
    }
}

} // verus!
