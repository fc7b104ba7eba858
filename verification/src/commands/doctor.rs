//! `tix doctor`: the diagnostic checks, each decided from facts gathered about the
//! installation, and how they are reported.

use vstd::prelude::*;

use crate::commands::init::{shim_contents, shim_text};
use crate::regex::{regex_capture_groups, regex_captures, regex_compiles};
use crate::text::{decimal, join, join_strings, parse_u32, parsed_u32, str_eq, strings_view, u64_to_decimal};

verus! {

/// The oldest git release `tix` supports: major part.
pub const MIN_GIT_MAJOR: u32 = 2;

/// The oldest git release `tix` supports: minor part.
pub const MIN_GIT_MINOR: u32 = 30;

/// How a check came out.
#[derive(Debug, Clone, Copy, PartialEq, Eq, Structural)]
pub enum Status {
    Pass,
    Warn,
    Fail,
}

/// The outcome of one diagnostic check.
#[derive(Debug, Clone, PartialEq, Eq)]
pub struct Check {
    pub name: String,
    pub status: Status,
    pub summary: String,
    pub hint: Option<String>,
    pub detail: Option<String>,
}

/// The mathematical value of an optional string.
pub open spec fn opt_view(o: Option<String>) -> Option<Seq<char>> {
    match o {
        Some(s) => Some(s@),
        None => None,
    }
}

/// The check `c` has exactly these parts.
pub open spec fn check_is(c: Check, name: Seq<char>, status: Status, summary: Seq<char>, hint: Option<Seq<char>>, detail: Option<Seq<char>>) -> bool {
    &&& c.name@ == name
    &&& c.status == status
    &&& c.summary@ == summary
    &&& opt_view(c.hint) == hint
    &&& opt_view(c.detail) == detail
}

impl Check {
    /// A passed check.
    pub fn ok(name: &str, summary: String) -> (c: Check)
        ensures
            check_is(c, name@, Status::Pass, summary@, None, None),
    {
        Check { name: name.to_owned(), status: Status::Pass, summary, hint: None, detail: None }
    }

    /// A check that found something worth a warning, with a remedy.
    pub fn warn(name: &str, summary: String, hint: String) -> (c: Check)
        ensures
            check_is(c, name@, Status::Warn, summary@, Some(hint@), None),
    {
        Check { name: name.to_owned(), status: Status::Warn, summary, hint: Some(hint), detail: None }
    }

    /// A failed check, with a remedy.
    pub fn fail(name: &str, summary: String, hint: String) -> (c: Check)
        ensures
            check_is(c, name@, Status::Fail, summary@, Some(hint@), None),
    {
        Check { name: name.to_owned(), status: Status::Fail, summary, hint: Some(hint), detail: None }
    }

    /// The same check with a detail shown in verbose mode.
    pub fn with_detail(self, detail: String) -> (c: Check)
        ensures
            c.name == self.name,
            c.status == self.status,
            c.summary == self.summary,
            c.hint == self.hint,
            opt_view(c.detail) == Some(detail@),
    {
        let mut c = self;
        c.detail = Some(detail);
        c
    }
}

/// The expression that finds the version in `git --version` output.
pub open spec fn git_version_pattern() -> Seq<char> {
    "git version (\\d+)\\.(\\d+)"@
}

/// Major and minor version read from `git --version` output: the first two capture
/// groups of the version expression, each parsed as a `u32`.
pub open spec fn git_version_of(s: Seq<char>) -> Option<(u32, u32)> {
    match regex_capture_groups(git_version_pattern(), s) {
        Some(g) => if g.len() >= 3 && g[1] is Some && g[2] is Some {
            match (parsed_u32(g[1]->0), parsed_u32(g[2]->0)) {
                (Some(a), Some(b)) => Some((a, b)),
                _ => None,
            }
        } else {
            None
        },
        None => None,
    }
}

/// What `parse_git_version` reads from `s`: nothing when the version expression
/// does not compile.
pub open spec fn git_version_read(s: Seq<char>) -> Option<(u32, u32)> {
    if regex_compiles(git_version_pattern()) {
        git_version_of(s)
    } else {
        None
    }
}

/// Major and minor version from `git --version` output, if it can be read.
pub fn parse_git_version(s: &str) -> (r: Option<(u32, u32)>)
    ensures
        r == git_version_read(s@),
{
    let pattern = "git version (\\d+)\\.(\\d+)";
    let groups = match regex_captures(pattern, s) {
        Ok(Some(g)) => g,
        _ => return None,
    };
    if groups.len() < 3 {
        return None;
    }
    let major = match &groups[1] {
        Some(m) => parse_u32(m.as_str()),
        None => return None,
    };
    let minor = match &groups[2] {
        Some(m) => parse_u32(m.as_str()),
        None => return None,
    };
    match (major, minor) {
        (Some(a), Some(b)) => Some((a, b)),
        _ => None,
    }
}

/// `major.minor` is at least the oldest supported git release.
pub open spec fn supported_version(major: u32, minor: u32) -> bool {
    major > MIN_GIT_MAJOR || (major == MIN_GIT_MAJOR && minor >= MIN_GIT_MINOR)
}

/// The check on the installed git, from the output of `git --version` or the error
/// running it gave.
pub fn check_git_version(version: Result<String, String>) -> (c: Check)
    ensures
        match version {
            Err(e) => check_is(c, "git available"@, Status::Fail, "could not run `git --version`"@, Some("install git \u{2265} 2.30"@), Some(e@)),
            Ok(raw) => match git_version_read(raw@) {
                Some((a, b)) => if supported_version(a, b) {
                    check_is(c, "git version"@, Status::Pass, raw@ + " (\u{2265} 2.30)"@, None, None)
                } else {
                    check_is(c, "git version"@, Status::Fail, decimal(a as nat) + "."@ + decimal(b as nat) + " is older than required"@, Some("upgrade to git \u{2265} 2.30"@), None)
                },
                None => check_is(c, "git version"@, Status::Warn, "could not parse `"@ + raw@ + "`"@, Some("verify `git --version` is sane"@), None),
            },
        },
{
    match version {
        Err(e) => Check::fail("git available", "could not run `git --version`".to_owned(), "install git \u{2265} 2.30".to_owned()).with_detail(e),
        Ok(raw) => {
            match parse_git_version(raw.as_str()) {
                Some((a, b)) => {
                    if a > MIN_GIT_MAJOR || (a == MIN_GIT_MAJOR && b >= MIN_GIT_MINOR) {
                        let mut s = raw.clone();
                        s.append(" (\u{2265} 2.30)");
                        Check::ok("git version", s)
                    } else {
                        let mut s = u64_to_decimal(a as u64);
                        s.append(".");
                        let m = u64_to_decimal(b as u64);
                        s.append(m.as_str());
                        s.append(" is older than required");
                        Check::fail("git version", s, "upgrade to git \u{2265} 2.30".to_owned())
                    }
                },
                None => {
                    let mut s = "could not parse `".to_owned();
                    s.append(raw.as_str());
                    s.append("`");
                    Check::warn("git version", s, "verify `git --version` is sane".to_owned())
                },
            }
        },
    }
}


/// The optional string `o` as a mathematical value.
pub open spec fn str_opt(o: Option<&str>) -> Option<Seq<char>> {
    match o {
        Some(s) => Some(s@),
        None => None,
    }
}

/// The check on the global `core.hooksPath`, from its value and the managed hooks
/// directory (`None` when that could not be resolved).
pub fn check_hooks_path(value: Option<&str>, expected: Option<&str>) -> (c: Check)
    ensures
        match (str_opt(value), str_opt(expected)) {
            (Some(actual), Some(want)) => if actual == want {
                check_is(c, "core.hooksPath"@, Status::Pass, actual, None, None)
            } else {
                check_is(c, "core.hooksPath"@, Status::Fail, "set to "@ + actual + ", expected "@ + want,
                    Some("rerun `tix init --force` to point hooksPath at the managed dir"@), None)
            },
            (Some(actual), None) => check_is(c, "core.hooksPath"@, Status::Warn, "set to "@ + actual
                + " (could not resolve managed dir)"@, Some("ensure $HOME or $XDG_CONFIG_HOME is set"@), None),
            (None, _) => check_is(c, "core.hooksPath"@, Status::Fail, "not set"@, Some("run `tix init` to install hooks"@), None),
        },
{
    match (value, expected) {
        (Some(actual), Some(want)) => {
            if str_eq(actual, want) {
                Check::ok("core.hooksPath", actual.to_owned())
            } else {
                let mut s = "set to ".to_owned();
                s.append(actual);
                s.append(", expected ");
                s.append(want);
                Check::fail("core.hooksPath", s, "rerun `tix init --force` to point hooksPath at the managed dir".to_owned())
            }
        },
        (Some(actual), None) => {
            let mut s = "set to ".to_owned();
            s.append(actual);
            s.append(" (could not resolve managed dir)");
            Check::warn("core.hooksPath", s, "ensure $HOME or $XDG_CONFIG_HOME is set".to_owned())
        },
        (None, _) => Check::fail("core.hooksPath", "not set".to_owned(), "run `tix init` to install hooks".to_owned()),
    }
}

/// The check on a repo-local `core.hooksPath`, which would hide the global hooks
/// unless it points at the managed directory too.
pub fn check_local_hooks_path(value: Option<&str>, expected: Option<&str>) -> (c: Check)
    ensures
        match (str_opt(value), str_opt(expected)) {
            (None, _) => check_is(c, "local hooksPath"@, Status::Pass, "not set (global applies)"@, None, None),
            (Some(actual), Some(want)) if actual == want => check_is(c, "local hooksPath"@, Status::Pass,
                actual + " (matches managed dir)"@, None, None),
            (Some(actual), _) => check_is(c, "local hooksPath"@, Status::Fail, "local override hides our hooks: "@
                + actual, Some("run `git config --local --unset core.hooksPath`"@), None),
        },
{
    match value {
        None => Check::ok("local hooksPath", "not set (global applies)".to_owned()),
        Some(actual) => {
            let same = match expected {
                Some(want) => str_eq(actual, want),
                None => false,
            };
            if same {
                let mut s = actual.to_owned();
                s.append(" (matches managed dir)");
                Check::ok("local hooksPath", s)
            } else {
                let mut s = "local override hides our hooks: ".to_owned();
                s.append(actual);
                Check::fail("local hooksPath", s, "run `git config --local --unset core.hooksPath`".to_owned())
            }
        },
    }
}

/// What was found about one installed hook shim.
#[derive(Debug, Clone, PartialEq, Eq)]
pub struct ShimFacts {
    /// The hook's name.
    pub name: String,
    /// The file exists.
    pub exists: bool,
    /// The file has an execute bit set.
    pub executable: bool,
    /// The file's contents, `None` when it could not be read.
    pub contents: Option<String>,
}

/// The shims that are absent or unreadable.
pub open spec fn missing_shims(f: Seq<ShimFacts>) -> Seq<Seq<char>>
    decreases f.len(),
{
    if f.len() == 0 {
        Seq::empty()
    } else {
        let rest = missing_shims(f.drop_last());
        let h = f.last();
        if !h.exists || h.contents is None {
            rest.push(h.name@)
        } else {
            rest
        }
    }
}

/// The shims that exist but are not executable.
pub open spec fn unexecutable_shims(f: Seq<ShimFacts>) -> Seq<Seq<char>>
    decreases f.len(),
{
    if f.len() == 0 {
        Seq::empty()
    } else {
        let rest = unexecutable_shims(f.drop_last());
        let h = f.last();
        if h.exists && !h.executable {
            rest.push(h.name@)
        } else {
            rest
        }
    }
}

/// The shims that exist, can be read, and differ from what `tix init` writes.
pub open spec fn modified_shims(f: Seq<ShimFacts>) -> Seq<Seq<char>>
    decreases f.len(),
{
    if f.len() == 0 {
        Seq::empty()
    } else {
        let rest = modified_shims(f.drop_last());
        let h = f.last();
        if h.exists && h.contents is Some && h.contents->0@ != shim_text(h.name@) {
            rest.push(h.name@)
        } else {
            rest
        }
    }
}

/// The labelled lists of problems found with the shims, empty lists left out.
pub open spec fn shim_problems(f: Seq<ShimFacts>) -> Seq<Seq<char>> {
    let m = missing_shims(f);
    let x = unexecutable_shims(f);
    let w = modified_shims(f);
    let a: Seq<Seq<char>> = if m.len() > 0 { seq!["missing: "@ + join(m, ", "@)] } else { Seq::empty() };
    let b: Seq<Seq<char>> = if x.len() > 0 { seq!["not executable: "@ + join(x, ", "@)] } else { Seq::empty() };
    let c: Seq<Seq<char>> = if w.len() > 0 { seq!["modified: "@ + join(w, ", "@)] } else { Seq::empty() };
    a + b + c
}

/// The check on the installed hook shims, from the managed hooks directory, whether
/// it exists, and what was found about each hook.
pub fn check_shims(hooks_dir: &str, dir_exists: bool, hooks: &Vec<ShimFacts>) -> (c: Check)
    ensures
        !dir_exists ==> check_is(c, "hook shims"@, Status::Fail, "hooks dir missing: "@ + hooks_dir@,
            Some("run `tix init` to install shims"@), None),
        dir_exists && shim_problems(hooks@).len() == 0 ==> check_is(c, "hook shims"@, Status::Pass,
            "all 3 present in "@ + hooks_dir@, None, None),
        dir_exists && shim_problems(hooks@).len() > 0 ==> check_is(c, "hook shims"@, Status::Fail,
            join(shim_problems(hooks@), "; "@), Some("run `tix init` to reinstall the managed shims"@), None),
{
    if !dir_exists {
        let mut s = "hooks dir missing: ".to_owned();
        s.append(hooks_dir);
        return Check::fail("hook shims", s, "run `tix init` to install shims".to_owned());
    }
    let mut missing: Vec<String> = Vec::new();
    let mut wrong_content: Vec<String> = Vec::new();
    let mut not_exec: Vec<String> = Vec::new();
    let mut i: usize = 0;
    while i < hooks.len()
        invariant
            i <= hooks@.len(),
            strings_view(missing@) == missing_shims(hooks@.take(i as int)),
            strings_view(not_exec@) == unexecutable_shims(hooks@.take(i as int)),
            strings_view(wrong_content@) == modified_shims(hooks@.take(i as int)),
        decreases hooks.len() - i,
    {
        let h = &hooks[i];
        assert(hooks@.take(i + 1).drop_last() =~= hooks@.take(i as int));
        assert(hooks@.take(i + 1).last() == *h);
        if !h.exists {
            let ghost before = missing@;
            missing.push(h.name.clone());
            assert(strings_view(missing@) =~= strings_view(before).push(h.name@));
        } else {
            if !h.executable {
                let ghost before = not_exec@;
                not_exec.push(h.name.clone());
                assert(strings_view(not_exec@) =~= strings_view(before).push(h.name@));
            }
            match &h.contents {
                Some(text) => {
                    let expected = shim_contents(h.name.as_str());
                    if !str_eq(text.as_str(), expected.as_str()) {
                        let ghost before = wrong_content@;
                        wrong_content.push(h.name.clone());
                        assert(strings_view(wrong_content@) =~= strings_view(before).push(h.name@));
                    }
                },
                None => {
                    let ghost before = missing@;
                    missing.push(h.name.clone());
                    assert(strings_view(missing@) =~= strings_view(before).push(h.name@));
                },
            }
        }
        i += 1;
    }
    assert(hooks@.take(hooks@.len() as int) =~= hooks@);
    let mut parts: Vec<String> = Vec::new();
    if missing.len() > 0 {
        let mut p = "missing: ".to_owned();
        let j = join_strings(&missing, ", ");
        p.append(j.as_str());
        parts.push(p);
    }
    if not_exec.len() > 0 {
        let mut p = "not executable: ".to_owned();
        let j = join_strings(&not_exec, ", ");
        p.append(j.as_str());
        parts.push(p);
    }
    if wrong_content.len() > 0 {
        let mut p = "modified: ".to_owned();
        let j = join_strings(&wrong_content, ", ");
        p.append(j.as_str());
        parts.push(p);
    }
    assert(strings_view(parts@) =~= shim_problems(hooks@));
    if parts.len() == 0 {
        let mut s = "all 3 present in ".to_owned();
        s.append(hooks_dir);
        Check::ok("hook shims", s)
    } else {
        let s = join_strings(&parts, "; ");
        Check::fail("hook shims", s, "run `tix init` to reinstall the managed shims".to_owned())
    }
}


/// The check on the global config file, from its path (`None` when the config
/// directory could not be resolved), whether it exists, and the error loading it
/// gave (`None` when it loaded).
pub fn check_global_config(path: Option<&str>, exists: bool, load_error: Option<String>) -> (c: Check)
    ensures
        match str_opt(path) {
            None => check_is(c, "global config"@, Status::Warn, "could not resolve config dir"@,
                Some("ensure $HOME or $XDG_CONFIG_HOME is set"@), None),
            Some(p) => if !exists {
                check_is(c, "global config"@, Status::Warn, p + " not present"@,
                    Some("run `tix init` to scaffold defaults"@), None)
            } else {
                match load_error {
                    None => check_is(c, "global config"@, Status::Pass, p + " parses"@, None, None),
                    Some(e) => check_is(c, "global config"@, Status::Fail, p + " fails to parse"@,
                        Some("fix the TOML or rename the file and run `tix init`"@), Some(e@)),
                }
            },
        },
{
    let p = match path {
        Some(p) => p,
        None => return Check::warn("global config", "could not resolve config dir".to_owned(), "ensure $HOME or $XDG_CONFIG_HOME is set".to_owned()),
    };
    if !exists {
        let mut s = p.to_owned();
        s.append(" not present");
        return Check::warn("global config", s, "run `tix init` to scaffold defaults".to_owned());
    }
    match load_error {
        None => {
            let mut s = p.to_owned();
            s.append(" parses");
            Check::ok("global config", s)
        },
        Some(e) => {
            let mut s = p.to_owned();
            s.append(" fails to parse");
            Check::fail("global config", s, "fix the TOML or rename the file and run `tix init`".to_owned()).with_detail(e)
        },
    }
}

/// The check on the repo config file `.tix.toml`.
pub fn check_repo_config(path: &str, exists: bool, load_error: Option<String>) -> (c: Check)
    ensures
        !exists ==> check_is(c, "repo config"@, Status::Pass, "no .tix.toml (using global only)"@, None, None),
        exists ==> match load_error {
            None => check_is(c, "repo config"@, Status::Pass, path@ + " parses"@, None, None),
            Some(e) => check_is(c, "repo config"@, Status::Fail, path@ + " fails to parse"@,
                Some("fix the TOML or remove .tix.toml"@), Some(e@)),
        },
{
    if !exists {
        return Check::ok("repo config", "no .tix.toml (using global only)".to_owned());
    }
    match load_error {
        None => {
            let mut s = path.to_owned();
            s.append(" parses");
            Check::ok("repo config", s)
        },
        Some(e) => {
            let mut s = path.to_owned();
            s.append(" fails to parse");
            Check::fail("repo config", s, "fix the TOML or remove .tix.toml".to_owned()).with_detail(e)
        },
    }
}

/// The check on the clone's state file.
pub fn check_state_file(path: &str, exists: bool, load_error: Option<String>) -> (c: Check)
    ensures
        !exists ==> check_is(c, "state file"@, Status::Pass, "no state.json yet (no commits made)"@, None, None),
        exists ==> match load_error {
            None => check_is(c, "state file"@, Status::Pass, path@ + " parses"@, None, None),
            Some(e) => check_is(c, "state file"@, Status::Fail, path@ + " fails to load"@,
                Some("inspect or remove `<git-dir>/tix/state.json`"@), Some(e@)),
        },
{
    if !exists {
        return Check::ok("state file", "no state.json yet (no commits made)".to_owned());
    }
    match load_error {
        None => {
            let mut s = path.to_owned();
            s.append(" parses");
            Check::ok("state file", s)
        },
        Some(e) => {
            let mut s = path.to_owned();
            s.append(" fails to load");
            Check::fail("state file", s, "inspect or remove `<git-dir>/tix/state.json`".to_owned()).with_detail(e)
        },
    }
}

/// The remote-tracking ref that `default_base` must resolve to.
pub fn default_base_ref(base: &str) -> (r: String)
    ensures
        r@ == "refs/remotes/origin/"@ + base@,
{
    let mut r = "refs/remotes/origin/".to_owned();
    r.append(base);
    r
}

/// The check on `branches.default_base` when the configuration could not be loaded.
pub fn check_default_base_unloadable(error: String) -> (c: Check)
    ensures
        check_is(c, "default_base"@, Status::Fail, "config could not be loaded"@,
            Some("see `global config` and `repo config` checks above"@), Some(error@)),
{
    Check::fail("default_base", "config could not be loaded".to_owned(), "see `global config` and `repo config` checks above".to_owned()).with_detail(error)
}

/// The check on `branches.default_base`, from whether its remote-tracking ref was
/// found (or the error querying refs gave).
pub fn check_default_base(base: &str, found: Result<bool, String>) -> (c: Check)
    ensures
        match found {
            Ok(true) => check_is(c, "default_base"@, Status::Pass, "origin/"@ + base@ + " resolves"@, None, None),
            Ok(false) => check_is(c, "default_base"@, Status::Warn, "origin/"@ + base@ + " not found"@,
                Some("`git fetch origin "@ + base@ + "` or set branches.default_base to a real branch"@), None),
            Err(e) => check_is(c, "default_base"@, Status::Warn, "could not query refs for origin/"@ + base@,
                Some("ensure the repo has a working `origin` remote"@), Some(e@)),
        },
{
    match found {
        Ok(true) => {
            let mut s = "origin/".to_owned();
            s.append(base);
            s.append(" resolves");
            Check::ok("default_base", s)
        },
        Ok(false) => {
            let mut s = "origin/".to_owned();
            s.append(base);
            s.append(" not found");
            let mut h = "`git fetch origin ".to_owned();
            h.append(base);
            h.append("` or set branches.default_base to a real branch");
            Check::warn("default_base", s, h)
        },
        Err(e) => {
            let mut s = "could not query refs for origin/".to_owned();
            s.append(base);
            Check::warn("default_base", s, "ensure the repo has a working `origin` remote".to_owned()).with_detail(e)
        },
    }
}

/// The check on commit signing: only when `commit.gpgsign` is `true` must
/// `user.signingKey` be set.
pub fn check_signing_key(gpgsign: Option<&str>, key: Option<&str>) -> (c: Check)
    ensures
        str_opt(gpgsign) != Some("true"@) ==> check_is(c, "signing key"@, Status::Pass,
            "commit.gpgsign not enabled (skipping)"@, None, None),
        str_opt(gpgsign) == Some("true"@) ==> match str_opt(key) {
            Some(k) if k.len() > 0 => check_is(c, "signing key"@, Status::Pass, "user.signingKey = "@ + k, None, None),
            _ => check_is(c, "signing key"@, Status::Warn, "commit.gpgsign=true but user.signingKey is unset"@,
                Some("set `git config --global user.signingKey <key-id>`"@), None),
        },
{
    let enabled = match gpgsign {
        Some(g) => str_eq(g, "true"),
        None => false,
    };
    if !enabled {
        return Check::ok("signing key", "commit.gpgsign not enabled (skipping)".to_owned());
    }
    match key {
        Some(k) if k.unicode_len() > 0 => {
            let mut s = "user.signingKey = ".to_owned();
            s.append(k);
            Check::ok("signing key", s)
        },
        _ => Check::warn("signing key", "commit.gpgsign=true but user.signingKey is unset".to_owned(), "set `git config --global user.signingKey <key-id>`".to_owned()),
    }
}

/// The tag a report line starts with, right-aligned in four columns.
pub open spec fn status_tag(s: Status) -> Seq<char> {
    match s {
        Status::Pass => "  OK"@,
        Status::Warn => "WARN"@,
        Status::Fail => "FAIL"@,
    }
}

/// The report lines of one check: `[TAG] name: summary`, then the hint for a check
/// that did not pass, then in verbose mode the detail.
pub open spec fn check_lines_of(c: Check, verbose: bool) -> Seq<Seq<char>> {
    let head = seq!["["@ + status_tag(c.status) + "] "@ + c.name@ + ": "@ + c.summary@];
    let hint = if c.status != Status::Pass && c.hint is Some {
        seq!["       \u{2192} "@ + c.hint->0@]
    } else {
        Seq::empty()
    };
    let detail = if verbose && c.detail is Some {
        seq!["       "@ + c.detail->0@]
    } else {
        Seq::empty()
    };
    head + hint + detail
}

/// The report lines of the checks, in order.
pub open spec fn report_lines(cs: Seq<Check>, verbose: bool) -> Seq<Seq<char>>
    decreases cs.len(),
{
    if cs.len() == 0 {
        Seq::empty()
    } else {
        report_lines(cs.drop_last(), verbose) + check_lines_of(cs.last(), verbose)
    }
}

/// The report that `tix doctor` prints.
pub fn render_checks(checks: &Vec<Check>, verbose: bool) -> (lines: Vec<String>)
    ensures
        strings_view(lines@) == report_lines(checks@, verbose),
{
    let mut lines: Vec<String> = Vec::new();
    let mut i: usize = 0;
    while i < checks.len()
        invariant
            i <= checks@.len(),
            strings_view(lines@) == report_lines(checks@.take(i as int), verbose),
        decreases checks.len() - i,
    {
        let c = &checks[i];
        assert(checks@.take(i + 1).drop_last() =~= checks@.take(i as int));
        assert(checks@.take(i + 1).last() == *c);
        let ghost before = strings_view(lines@);
        let tag = match c.status {
            Status::Pass => "  OK",
            Status::Warn => "WARN",
            Status::Fail => "FAIL",
        };
        let mut head = "[".to_owned();
        head.append(tag);
        head.append("] ");
        head.append(c.name.as_str());
        head.append(": ");
        head.append(c.summary.as_str());
        lines.push(head);
        let ghost after_head = strings_view(lines@);
        assert(after_head =~= before.push(lines@.last()@));
        if c.status != Status::Pass {
            if let Some(hint) = &c.hint {
                let mut l = "       \u{2192} ".to_owned();
                l.append(hint.as_str());
                lines.push(l);
            }
        }
        let ghost after_hint = strings_view(lines@);
        if verbose {
            if let Some(detail) = &c.detail {
                let mut l = "       ".to_owned();
                l.append(detail.as_str());
                lines.push(l);
            }
        }
        assert(strings_view(lines@) =~= before + check_lines_of(*c, verbose));
        i += 1;
    }
    assert(checks@.take(checks@.len() as int) =~= checks@);
    lines
}

/// Some check failed.
pub open spec fn any_failed(cs: Seq<Check>) -> bool {
    exists|i: int| 0 <= i < cs.len() && (#[trigger] cs[i]).status == Status::Fail
}

/// The exit status of `tix doctor`: 1 when a check failed, else 0. Warnings never fail.
pub fn doctor_exit_code(checks: &Vec<Check>) -> (code: u8)
    ensures
        code == (if any_failed(checks@) { 1u8 } else { 0u8 }),
{
    let mut i: usize = 0;
    while i < checks.len()
        invariant
            i <= checks@.len(),
            forall|j: int| 0 <= j < i ==> (#[trigger] checks@[j]).status != Status::Fail,
        decreases checks.len() - i,
    {
        if checks[i].status == Status::Fail {
            return 1;
        }
        i += 1;
    }
    0
}

} // verus!
