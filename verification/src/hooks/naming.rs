//! The branch-naming convention and the stale-base warning that the hooks apply.

use vstd::prelude::*;

use crate::regex::{regex_match, regex_outcome};
use crate::text::{decimal, str_eq, u64_to_decimal};

verus! {

/// What the naming convention says about a branch.
#[derive(Debug, Clone, PartialEq, Eq)]
pub enum NamingVerdict {
    /// The name conforms, or the check is off.
    Conforms,
    /// The name does not conform and enforcement is `warn`: show this line.
    Warn(String),
    /// The name does not conform and enforcement is `block`: refuse with this message.
    Block(String),
}

/// How a name that does not conform is described.
pub open spec fn nonconforming_text(branch: Seq<char>, pattern: Seq<char>) -> Seq<char> {
    "branch '"@ + branch + "' does not match naming pattern "@ + pattern
}

/// The hint that follows a refusal.
pub open spec fn rename_hint() -> Seq<char> {
    "\nrename it with `git branch -m <new-name>`, or set branches.naming_enforcement = \"warn\""@
}

/// Checks `branch` against the naming pattern under the enforcement mode: `off`
/// skips the check; a name the pattern matches conforms; otherwise `block` refuses
/// with a rename hint and any other mode (`warn`) warns. A pattern that does not
/// compile matches nothing.
pub fn naming_check(branch: &str, pattern: &str, enforcement: &str) -> (v: NamingVerdict)
    ensures
        enforcement@ == "off"@ ==> v == NamingVerdict::Conforms,
        enforcement@ != "off"@ && regex_outcome(pattern@, branch@) == Some(true) ==> v == NamingVerdict::Conforms,
        enforcement@ != "off"@ && regex_outcome(pattern@, branch@) != Some(true) ==> if enforcement@ == "block"@ {
            (v matches NamingVerdict::Block(m) && m@ == nonconforming_text(branch@, pattern@) + rename_hint())
        } else {
            (v matches NamingVerdict::Warn(m) && m@ == "warning: "@ + nonconforming_text(branch@, pattern@))
        },
{
    if str_eq(enforcement, "off") {
        return NamingVerdict::Conforms;
    }
    if let Some(true) = regex_match(pattern, branch) {
        return NamingVerdict::Conforms;
    }
    let mut m = "branch '".to_owned();
    m.append(branch);
    m.append("' does not match naming pattern ");
    m.append(pattern);
    if str_eq(enforcement, "block") {
        m.append("\nrename it with `git branch -m <new-name>`, or set branches.naming_enforcement = \"warn\"");
        NamingVerdict::Block(m)
    } else {
        let mut w = "warning: ".to_owned();
        w.append(m.as_str());
        NamingVerdict::Warn(w)
    }
}

/// The warning for a branch `behind` commits behind `origin/BASE`: due only when
/// the threshold is not 0 and `behind` exceeds it. It never blocks.
pub open spec fn stale_text(branch: Seq<char>, base: Seq<char>, behind: u32) -> Seq<char> {
    "warning: "@ + branch + " is "@ + decimal(behind as nat) + " commits behind origin/"@ + base
        + "; consider `git rebase origin/"@ + base + "`"@
}

/// The stale-base warning for a pushed branch, if it is due.
pub fn stale_warning(branch: &str, base: &str, behind: u32, threshold: u32) -> (w: Option<String>)
    ensures
        (threshold == 0 || behind <= threshold) ==> w is None,
        (threshold != 0 && behind > threshold) ==> (w matches Some(t) && t@ == stale_text(branch@, base@, behind)),
{
    if threshold == 0 || behind <= threshold {
        return None;
    }
    let mut t = "warning: ".to_owned();
    t.append(branch);
    t.append(" is ");
    let n = u64_to_decimal(behind as u64);
    t.append(n.as_str());
    t.append(" commits behind origin/");
    t.append(base);
    t.append("; consider `git rebase origin/");
    t.append(base);
    t.append("`");
    Some(t)
}

} // verus!
