//! The logic of the git hooks that `tix` installs.

pub mod naming;
pub mod pre_commit;
pub mod prefix_laws;
pub mod pre_push;
pub mod prepare_commit_msg;

use vstd::prelude::*;

verus! {

/// The hooks `tix hook` runs.
#[derive(Debug, Clone, Copy, PartialEq, Eq, Structural)]
pub enum HookKind {
    PrepareCommitMsg,
    PreCommit,
    PrePush,
}

/// The hook called `name`, if `tix` has one.
pub open spec fn hook_named(name: Seq<char>) -> Option<HookKind> {
    if name == "prepare-commit-msg"@ {
        Some(HookKind::PrepareCommitMsg)
    } else if name == "pre-commit"@ {
        Some(HookKind::PreCommit)
    } else if name == "pre-push"@ {
        Some(HookKind::PrePush)
    } else {
        None
    }
}

/// The hook called `name`, or the error for a name `tix` does not know.
pub fn hook_kind(name: &str) -> (r: Result<HookKind, String>)
    ensures
        match hook_named(name@) {
            Some(k) => r == Ok::<HookKind, String>(k),
            None => r matches Err(e) && e@ == "unknown hook `"@ + name@ + "`"@,
        },
{
    if crate::text::str_eq(name, "prepare-commit-msg") {
        Ok(HookKind::PrepareCommitMsg)
    } else if crate::text::str_eq(name, "pre-commit") {
        Ok(HookKind::PreCommit)
    } else if crate::text::str_eq(name, "pre-push") {
        Ok(HookKind::PrePush)
    } else {
        let mut e = "unknown hook `".to_owned();
        e.append(name);
        e.append("`");
        Err(e)
    }
}

} // verus!
