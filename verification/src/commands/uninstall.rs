//! `tix uninstall`: what it removes and what it leaves alone.

use vstd::prelude::*;

use crate::text::{str_eq, strings_view};

verus! {

/// What `tix uninstall` will do.
#[derive(Debug, Clone, PartialEq, Eq)]
pub struct UninstallPlan {
    /// The lines describing each action, in order.
    pub lines: Vec<String>,
    /// There is something to remove or unset.
    pub actionable: bool,
    /// `core.hooksPath` points at our hooks directory and is to be unset.
    pub unset_hooks_path: bool,
    /// `core.hooksPath` is set to a directory that is not ours (left alone).
    pub foreign_hooks_path: Option<String>,
}

/// The plan's lines: each existing shim removed; `core.hooksPath` unset when it is
/// ours, or reported as left alone when it is another tool's; with `purge`, the
/// config file and directory removed, else the config file reported as kept.
pub open spec fn uninstall_lines(owned: Seq<Seq<char>>, existing: Option<Seq<char>>, hooks_path: Seq<char>, purge: bool, config_file: Seq<char>, file_exists: bool, config_dir: Seq<char>, dir_exists: bool) -> Seq<Seq<char>> {
    let removes = owned.map_values(|p: Seq<char>| "remove "@ + p);
    let hp: Seq<Seq<char>> = match existing {
        Some(e) => if e == hooks_path {
            seq!["unset git config --global core.hooksPath"@]
        } else {
            seq!["leave core.hooksPath = `"@ + e + "` (not managed by tix)"@]
        },
        None => Seq::empty(),
    };
    let cfg: Seq<Seq<char>> = if purge {
        (if file_exists { seq!["remove "@ + config_file] } else { Seq::empty() }) + (if dir_exists {
            seq!["remove "@ + config_dir + " (if empty)"@]
        } else {
            Seq::empty()
        })
    } else if file_exists {
        seq!["leave "@ + config_file + " (use --purge to remove)"@]
    } else {
        Seq::empty()
    };
    removes + hp + cfg
}

/// Decides what `tix uninstall` does, from the shims that exist (their paths, in
/// hook order), the current global `core.hooksPath`, our hooks directory, `purge`,
/// and whether the config file and directory exist.
pub fn uninstall_plan(owned_hooks: &Vec<String>, existing: Option<&str>, hooks_path: &str, purge: bool, config_file: &str, config_file_exists: bool, config_dir: &str, config_dir_exists: bool) -> (plan: UninstallPlan)
    ensures
        strings_view(plan.lines@) == uninstall_lines(
            strings_view(owned_hooks@),
            match existing { Some(e) => Some(e@), None => None },
            hooks_path@,
            purge,
            config_file@,
            config_file_exists,
            config_dir@,
            config_dir_exists,
        ),
        plan.unset_hooks_path == (existing matches Some(e) && e@ == hooks_path@),
        plan.foreign_hooks_path matches Some(f) ==> existing matches Some(e) && e@ != hooks_path@ && f@ == e@,
        plan.foreign_hooks_path is None ==> !(existing matches Some(e) && e@ != hooks_path@),
        plan.actionable == (owned_hooks@.len() > 0 || plan.unset_hooks_path || (purge && (config_file_exists
            || config_dir_exists))),
{
    let mut lines: Vec<String> = Vec::new();
    let mut i: usize = 0;
    while i < owned_hooks.len()
        invariant
            i <= owned_hooks@.len(),
            strings_view(lines@) == strings_view(owned_hooks@).take(i as int).map_values(|p: Seq<char>| "remove "@ + p),
        decreases owned_hooks.len() - i,
    {
        let ghost before = strings_view(lines@);
        let mut l = "remove ".to_owned();
        l.append(owned_hooks[i].as_str());
        let ghost lv = l@;
        lines.push(l);
        assert(strings_view(lines@) =~= before.push(lv));
        assert(strings_view(owned_hooks@).take(i + 1) =~= strings_view(owned_hooks@).take(i as int).push(owned_hooks@[i as int]@));
        assert(strings_view(lines@) =~= strings_view(owned_hooks@).take(i + 1).map_values(|p: Seq<char>| "remove "@ + p));
        i += 1;
    }
    assert(strings_view(owned_hooks@).take(owned_hooks@.len() as int) =~= strings_view(owned_hooks@));
    let ghost removes = strings_view(lines@);
    let mut ours = false;
    let mut foreign: Option<String> = None;
    if let Some(e) = existing {
        if str_eq(e, hooks_path) {
            ours = true;
            lines.push("unset git config --global core.hooksPath".to_owned());
        } else {
            let mut l = "leave core.hooksPath = `".to_owned();
            l.append(e);
            l.append("` (not managed by tix)");
            lines.push(l);
            foreign = Some(e.to_owned());
        }
    }
    let ghost with_hp = strings_view(lines@);
    if purge {
        if config_file_exists {
            let mut l = "remove ".to_owned();
            l.append(config_file);
            lines.push(l);
        }
        if config_dir_exists {
            let mut l = "remove ".to_owned();
            l.append(config_dir);
            l.append(" (if empty)");
            lines.push(l);
        }
    } else if config_file_exists {
        let mut l = "leave ".to_owned();
        l.append(config_file);
        l.append(" (use --purge to remove)");
        lines.push(l);
    }
    proof {
        let ex = match existing { Some(e) => Some(e@), None => None::<Seq<char>> };
        assert(strings_view(lines@) =~= uninstall_lines(
            strings_view(owned_hooks@),
            ex,
            hooks_path@,
            purge,
            config_file@,
            config_file_exists,
            config_dir@,
            config_dir_exists,
        ));
    }
    let actionable = owned_hooks.len() > 0 || ours || (purge && (config_file_exists || config_dir_exists));
    UninstallPlan { lines, actionable, unset_hooks_path: ours, foreign_hooks_path: foreign }
}

/// What `tix uninstall` prints when there is nothing to do.
pub fn nothing_to_do_lines(foreign_hooks_path: Option<&str>) -> (lines: Vec<String>)
    ensures
        strings_view(lines@) == seq!["tix uninstall: nothing to do"@] + match foreign_hooks_path {
            Some(f) => seq!["  - core.hooksPath = `"@ + f@ + "` (not managed by tix; left alone)"@],
            None => Seq::<Seq<char>>::empty(),
        },
{
    let mut lines: Vec<String> = Vec::new();
    lines.push("tix uninstall: nothing to do".to_owned());
    if let Some(f) = foreign_hooks_path {
        let mut l = "  - core.hooksPath = `".to_owned();
        l.append(f);
        l.append("` (not managed by tix; left alone)");
        lines.push(l);
    }
    assert(strings_view(lines@) =~= seq!["tix uninstall: nothing to do"@] + match foreign_hooks_path {
        Some(f) => seq!["  - core.hooksPath = `"@ + f@ + "` (not managed by tix; left alone)"@],
        None => Seq::<Seq<char>>::empty(),
    });
    lines
}


/// What `tix uninstall` prints when it has something to do: a heading that says
/// whether it was only a dry run, each step as a list item, and after a real run a
/// note that per-repo state stays.
pub open spec fn uninstall_report(dry_run: bool, plan: Seq<Seq<char>>) -> Seq<Seq<char>> {
    if dry_run {
        seq!["tix uninstall (dry run) \u{2014} would:"@] + plan.map_values(|l: Seq<char>| "  - "@ + l)
    } else {
        seq!["tix uninstall: complete"@] + plan.map_values(|l: Seq<char>| "  - "@ + l) + seq![
            ""@,
            "Note: per-repo state in `<repo>/.git/tix/state.json` is left untouched."@,
        ]
    }
}

/// The lines `tix uninstall` prints for its plan.
pub fn uninstall_report_lines(dry_run: bool, plan: &Vec<String>) -> (lines: Vec<String>)
    ensures
        strings_view(lines@) == uninstall_report(dry_run, strings_view(plan@)),
{
    let mut lines: Vec<String> = Vec::new();
    if dry_run {
        lines.push("tix uninstall (dry run) \u{2014} would:".to_owned());
    } else {
        lines.push("tix uninstall: complete".to_owned());
    }
    let ghost head = strings_view(lines@);
    let mut i: usize = 0;
    while i < plan.len()
        invariant
            i <= plan@.len(),
            strings_view(lines@) == head + strings_view(plan@).take(i as int).map_values(|l: Seq<char>| "  - "@ + l),
        decreases plan@.len() - i,
    {
        let mut l = "  - ".to_owned();
        l.append(plan[i].as_str());
        let ghost before = strings_view(lines@);
        lines.push(l);
        assert(strings_view(plan@).take(i + 1) =~= strings_view(plan@).take(i as int).push(plan@[i as int]@));
        assert(strings_view(lines@) =~= before.push("  - "@ + plan@[i as int]@));
        assert(strings_view(lines@) =~= head + strings_view(plan@).take(i + 1).map_values(|l: Seq<char>| "  - "@ + l));
        i += 1;
    }
    assert(strings_view(plan@).take(plan@.len() as int) =~= strings_view(plan@));
    if !dry_run {
        let ghost before = strings_view(lines@);
        lines.push("".to_owned());
        lines.push("Note: per-repo state in `<repo>/.git/tix/state.json` is left untouched.".to_owned());
        assert(strings_view(lines@) =~= before + seq![
            ""@,
            "Note: per-repo state in `<repo>/.git/tix/state.json` is left untouched."@,
        ]);
    }
    lines
}

} // verus!
