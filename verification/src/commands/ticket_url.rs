//! `tix ticket [open]`: the URL of the current branch's ticket.

use vstd::prelude::*;

use crate::state::BranchEntry;
use crate::text::{chars_of, replace_all, replace_all_chars, string_of};

verus! {

/// The error when no ticket URL template is configured.
pub open spec fn empty_template_text() -> Seq<char> {
    "integrations.ticket_url_template is empty; set it via `tix config set integrations.ticket_url_template \"https://your.atlassian.net/browse/{ticket}\"`"@
}

/// Refuses an empty ticket URL template.
pub fn check_template(template: &str) -> (r: Result<(), String>)
    ensures
        r is Ok <==> template@.len() > 0,
        r matches Err(e) ==> e@ == empty_template_text(),
{
    if template.unicode_len() == 0 {
        Err(
            "integrations.ticket_url_template is empty; set it via `tix config set integrations.ticket_url_template \"https://your.atlassian.net/browse/{ticket}\"`".to_owned(),
        )
    } else {
        Ok(())
    }
}

/// The URL of the ticket of `branch`, whose state entry is `entry`: the template
/// with every `{ticket}` replaced by the ticket. A branch in no-ticket mode, or
/// without an entry, has none.
pub open spec fn ticket_url_outcome(template: Seq<char>, branch: Seq<char>, entry: Option<BranchEntry>) -> Result<Seq<char>, Seq<char>> {
    if template.len() == 0 {
        Err(empty_template_text())
    } else {
        match entry {
            Some(e) => match e.ticket {
                Some(t) => Ok(replace_all(template, "{ticket}"@, t@)),
                None => Err("branch '"@ + branch + "' is in no-ticket mode; nothing to open"@),
            },
            None => Err("branch '"@ + branch + "' has no ticket \u{2014} run `tix set-ticket <ID>` first"@),
        }
    }
}

/// The ticket URL of `branch`, as `ticket_url_outcome` says.
pub fn ticket_url(template: &str, branch: &str, entry: Option<&BranchEntry>) -> (r: Result<String, String>)
    ensures
        match ticket_url_outcome(
            template@,
            branch@,
            match entry {
                Some(e) => Some(*e),
                None => None,
            },
        ) {
            Ok(u) => r matches Ok(x) && x@ == u,
            Err(e) => r matches Err(m) && m@ == e,
        },
{
    check_template(template)?;
    match entry {
        Some(e) => match &e.ticket {
            Some(t) => {
                let tc = chars_of(template);
                let pc = chars_of("{ticket}");
                proof {
                    reveal_strlit("{ticket}");
                }
                let rc = chars_of(t.as_str());
                let u = replace_all_chars(tc.as_slice(), pc.as_slice(), rc.as_slice());
                Ok(string_of(u.as_slice()))
            },
            None => {
                let mut m = "branch '".to_owned();
                m.append(branch);
                m.append("' is in no-ticket mode; nothing to open");
                Err(m)
            },
        },
        None => {
            let mut m = "branch '".to_owned();
            m.append(branch);
            m.append("' has no ticket \u{2014} run `tix set-ticket <ID>` first");
            Err(m)
        },
    }
}

} // verus!
