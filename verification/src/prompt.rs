//! Questions asked on the terminal: how they are put and how answers are read.

use vstd::prelude::*;

use crate::text::{debug_quote, debug_text, str_eq, trim, trim_str};

verus! {

/// The name of what `str::to_lowercase` gives (Unicode lower case).
pub uninterp spec fn lowercase_text(s: Seq<char>) -> Seq<char>;

/// Lower-cases `s` with `str::to_lowercase`; the case mapping is std's.
#[verifier::external_body]
fn to_lowercase(s: &str) -> (r: String)
    ensures
        r@ == lowercase_text(s@),
{
    s.to_lowercase()
}

/// The error given when a question cannot be asked because standard input is not
/// a terminal.
pub open spec fn not_a_tty_text() -> Seq<char> {
    "cannot prompt: stdin is not a terminal (use `tix set-ticket` or `tix clear-ticket`)"@
}

/// Refuses to ask when standard input is not a terminal.
pub fn require_tty(is_terminal: bool) -> (r: Result<(), String>)
    ensures
        r is Ok <==> is_terminal,
        r matches Err(e) ==> e@ == not_a_tty_text(),
{
    if is_terminal {
        Ok(())
    } else {
        Err("cannot prompt: stdin is not a terminal (use `tix set-ticket` or `tix clear-ticket`)".to_owned())
    }
}

/// How a yes/no question is put: the question, then `[Y/n]` or `[y/N]` after the
/// default, then a space.
pub fn confirm_prompt(question: &str, default: bool) -> (p: String)
    ensures
        p@ == question@ + " "@ + (if default {
            "[Y/n]"@
        } else {
            "[y/N]"@
        }) + " "@,
{
    let mut p = question.to_owned();
    p.append(" ");
    p.append(if default { "[Y/n]" } else { "[y/N]" });
    p.append(" ");
    p
}

/// What an answer to a yes/no question means, once trimmed and lower-cased: blank
/// takes the default, `y`/`yes` and `n`/`no` are accepted, anything else is an
/// error quoting it.
pub open spec fn confirm_outcome(answer: Seq<char>, default: bool) -> Result<bool, Seq<char>> {
    let a = lowercase_text(trim(answer));
    if a.len() == 0 {
        Ok(default)
    } else if a == "y"@ || a == "yes"@ {
        Ok(true)
    } else if a == "n"@ || a == "no"@ {
        Ok(false)
    } else {
        Err("invalid response: "@ + debug_text(a))
    }
}

/// Reads the answer to a yes/no question.
pub fn confirm_answer(answer: &str, default: bool) -> (r: Result<bool, String>)
    ensures
        match confirm_outcome(answer@, default) {
            Ok(b) => r == Ok::<bool, String>(b),
            Err(e) => r matches Err(m) && m@ == e,
        },
{
    let t = trim_str(answer);
    let a = to_lowercase(t.as_str());
    if a.unicode_len() == 0 {
        Ok(default)
    } else if str_eq(a.as_str(), "y") || str_eq(a.as_str(), "yes") {
        Ok(true)
    } else if str_eq(a.as_str(), "n") || str_eq(a.as_str(), "no") {
        Ok(false)
    } else {
        let mut m = "invalid response: ".to_owned();
        let q = debug_quote(a.as_str());
        m.append(q.as_str());
        Err(m)
    }
}

/// How a free-text question is put: the question and a space.
pub fn line_prompt(question: &str) -> (p: String)
    ensures
        p@ == question@ + " "@,
{
    let mut p = question.to_owned();
    p.append(" ");
    p
}

/// The answer to a free-text question: the line read, trimmed.
pub fn line_answer(input: &str) -> (a: String)
    ensures
        a@ == trim(input@),
{
    trim_str(input)
}

} // verus!
