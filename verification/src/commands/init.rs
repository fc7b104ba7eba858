//! `tix init`: the hook shims, the scaffolded config and the plan it reports.

use vstd::prelude::*;

use crate::text::{chars_of, str_eq, strings_view};

verus! {

/// The hooks that `tix` installs, in the order it installs them.
pub open spec fn hook_names() -> Seq<Seq<char>> {
    seq!["prepare-commit-msg"@, "pre-commit"@, "pre-push"@]
}

/// The hooks that `tix` installs.
pub fn hook_names_list() -> (v: Vec<&'static str>)
    ensures
        v@.len() == 3,
        forall|i: int| 0 <= i < 3 ==> (#[trigger] v@[i])@ == hook_names()[i],
{
    let v = vec!["prepare-commit-msg", "pre-commit", "pre-push"];
    v
}

/// The global config file that `tix init` writes when there is none.
pub const DEFAULT_CONFIG_TOML: &'static str = "# tix global config \u{2014} see the README for the full key reference

[ticket]
pattern = '^[A-Z]+-\\d+$'
prefix_format = \"{ticket} {message}\"

[branches]
protected = [\"main\", \"master\", \"develop\", \"release/*\"]
default_base = \"main\"
start_prefix = \"feature\"
naming_pattern = '^(feature|bugfix|hotfix|chore)/[A-Z]+-\\d+(-.+)?$'
naming_enforcement = \"warn\"

[push]
stale_warn_threshold = 50

[integrations]
ticket_url_template = \"\"
pr_provider = \"github\"
pr_command = \"auto\"
";

/// The shell script installed for a hook: it does nothing when `tix` is not on the
/// `PATH`, and otherwise hands the hook and its arguments to `tix hook`.
pub open spec fn shim_text(hook_name: Seq<char>) -> Seq<char> {
    "#!/bin/sh\ncommand -v tix > /dev/null 2>&1 || exit 0\nexec tix hook "@ + hook_name
        + " \"$@\"\n"@
}

/// The shell script installed for the hook `hook_name`.
pub fn shim_contents(hook_name: &str) -> (s: String)
    ensures
        s@ == shim_text(hook_name@),
{
    let mut s = "#!/bin/sh\ncommand -v tix > /dev/null 2>&1 || exit 0\nexec tix hook ".to_owned();
    s.append(hook_name);
    s.append(" \"$@\"\n");
    s
}

/// `name` appended to the directory `dir` as a path component (as `Path::join` does
/// for a relative name): with a `/` between them unless `dir` is empty or already
/// ends with one.
pub open spec fn path_join(dir: Seq<char>, name: Seq<char>) -> Seq<char> {
    if dir.len() == 0 || dir.last() == '/' {
        dir + name
    } else {
        dir + "/"@ + name
    }
}

/// `name` appended to the directory `dir` as a path component.
pub fn join_path(dir: &str, name: &str) -> (p: String)
    ensures
        p@ == path_join(dir@, name@),
{
    let d = chars_of(dir);
    let mut p = dir.to_owned();
    if d.len() == 0 || d[d.len() - 1] == '/' {
        p.append(name);
    } else {
        p.append("/");
        p.append(name);
    }
    p
}

/// What `tix init` does about `core.hooksPath`: set it when it is unset, leave it
/// when it already points at our hooks directory, and otherwise refuse unless
/// `force` is given.
pub open spec fn hooks_path_decision(existing: Option<Seq<char>>, ours: Seq<char>, force: bool) -> Option<bool> {
    match existing {
        None => Some(true),
        Some(p) => if p == ours {
            Some(false)
        } else if force {
            Some(true)
        } else {
            None
        },
    }
}

/// Whether `tix init` must set `core.hooksPath`; an error message when it is set to
/// another directory and `force` was not given.
pub fn needs_hooks_path(existing: Option<&str>, ours: &str, force: bool) -> (r: Result<bool, String>)
    ensures
        r matches Ok(b) ==> hooks_path_decision(
            match existing {
                Some(e) => Some(e@),
                None => None,
            },
            ours@,
            force,
        ) == Some(b),
        r is Err ==> hooks_path_decision(
            match existing {
                Some(e) => Some(e@),
                None => None,
            },
            ours@,
            force,
        ) is None,
        r matches Err(m) ==> m@ == "core.hooksPath is already set to `"@ + existing->0@
            + "`; rerun with --force to override"@,
{
    match existing {
        None => Ok(true),
        Some(p) => {
            if str_eq(p, ours) {
                Ok(false)
            } else if force {
                Ok(true)
            } else {
                let mut m = "core.hooksPath is already set to `".to_owned();
                m.append(p);
                m.append("`; rerun with --force to override");
                Err(m)
            }
        },
    }
}

/// The lines of the plan that `tix init` prints.
pub open spec fn init_plan(hooks_dir: Seq<char>, config_file: Seq<char>, needs_set: bool, needs_config: bool, hooks_path: Seq<char>) -> Seq<Seq<char>> {
    seq![
        "install hook "@ + path_join(hooks_dir, hook_names()[0]),
        "install hook "@ + path_join(hooks_dir, hook_names()[1]),
        "install hook "@ + path_join(hooks_dir, hook_names()[2]),
        if needs_set {
            "set git config --global core.hooksPath = "@ + hooks_path
        } else {
            "core.hooksPath already pointing here"@
        },
        if needs_config {
            "scaffold "@ + config_file
        } else {
            config_file + " already exists \u{2014} leaving untouched"@
        },
    ]
}

/// The plan that `tix init` prints: the three shims it installs, what it does about
/// `core.hooksPath`, and what it does about the global config file.
pub fn build_plan(hooks_dir: &str, config_file: &str, needs_set: bool, needs_config: bool, hooks_path_str: &str) -> (plan: Vec<String>)
    ensures
        plan@.len() == 5,
        forall|i: int| 0 <= i < 5 ==> (#[trigger] plan@[i])@ == init_plan(
            hooks_dir@,
            config_file@,
            needs_set,
            needs_config,
            hooks_path_str@,
        )[i],
{
    let mut plan: Vec<String> = Vec::new();
    let names = hook_names_list();
    let mut i: usize = 0;
    while i < names.len()
        invariant
            names@.len() == 3,
            forall|k: int| 0 <= k < 3 ==> (#[trigger] names@[k])@ == hook_names()[k],
            i <= 3,
            plan@.len() == i,
            forall|k: int| 0 <= k < i ==> (#[trigger] plan@[k])@ == "install hook "@ + path_join(
                hooks_dir@,
                hook_names()[k],
            ),
        decreases 3 - i,
    {
        let mut line = "install hook ".to_owned();
        let p = join_path(hooks_dir, names[i]);
        line.append(p.as_str());
        plan.push(line);
        i += 1;
    }
    if needs_set {
        let mut line = "set git config --global core.hooksPath = ".to_owned();
        line.append(hooks_path_str);
        plan.push(line);
    } else {
        plan.push("core.hooksPath already pointing here".to_owned());
    }
    if needs_config {
        let mut line = "scaffold ".to_owned();
        line.append(config_file);
        plan.push(line);
    } else {
        let mut line = config_file.to_owned();
        line.append(" already exists \u{2014} leaving untouched");
        plan.push(line);
    }
    plan
}


/// What `tix init` prints about its plan: a heading that says whether it was only
/// a dry run, then each step as a list item, and after a real run the next step.
pub open spec fn init_report(dry_run: bool, plan: Seq<Seq<char>>) -> Seq<Seq<char>> {
    if dry_run {
        seq!["tix init (dry run) \u{2014} would:"@] + plan.map_values(|l: Seq<char>| "  - "@ + l)
    } else {
        seq!["tix init: ready"@] + plan.map_values(|l: Seq<char>| "  - "@ + l) + seq![
            ""@,
            "Next: cd into any git repo, make a commit, and you'll be prompted for a ticket."@,
        ]
    }
}

/// The lines `tix init` prints for its plan.
pub fn init_report_lines(dry_run: bool, plan: &Vec<String>) -> (lines: Vec<String>)
    ensures
        strings_view(lines@) == init_report(dry_run, strings_view(plan@)),
{
    let mut lines: Vec<String> = Vec::new();
    if dry_run {
        lines.push("tix init (dry run) \u{2014} would:".to_owned());
    } else {
        lines.push("tix init: ready".to_owned());
    }
    let ghost head = strings_view(lines@);
    let mut i: usize = 0;
    while i < plan.len()
        invariant
            i <= plan@.len(),
            strings_view(lines@) == head + strings_view(plan@).take(i as int).map_values(|l: Seq<char>| "  - "@ + l),
        decreases plan@.len() - i,
    {
        let mut l = "  - ".to_owned();
        l.append(plan[i].as_str());
        let ghost before = strings_view(lines@);
        lines.push(l);
        assert(strings_view(plan@).take(i + 1) =~= strings_view(plan@).take(i as int).push(plan@[i as int]@));
        assert(strings_view(lines@) =~= before.push("  - "@ + plan@[i as int]@));
        assert(strings_view(lines@) =~= head + strings_view(plan@).take(i + 1).map_values(|l: Seq<char>| "  - "@ + l));
        i += 1;
    }
    assert(strings_view(plan@).take(plan@.len() as int) =~= strings_view(plan@));
    if !dry_run {
        let ghost before = strings_view(lines@);
        lines.push("".to_owned());
        lines.push("Next: cd into any git repo, make a commit, and you'll be prompted for a ticket.".to_owned());
        assert(strings_view(lines@) =~= before + seq![
            ""@,
            "Next: cd into any git repo, make a commit, and you'll be prompted for a ticket."@,
        ]);
    }
    lines
}

} // verus!
