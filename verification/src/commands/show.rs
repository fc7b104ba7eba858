//! `tix show`: what `tix` knows about the current branch and where its settings
//! come from.

use vstd::prelude::*;

use crate::commands::config_cmd::{format_source, source_name};
use crate::config::{field_named, Config};
use crate::glob::glob_matches;
use crate::state::{BranchEntry, State};
use crate::text::strings_view;

verus! {

/// The keys whose layer `tix show` reports, with the label it gives each.
pub open spec fn source_keys() -> Seq<(Seq<char>, Seq<char>)> {
    seq![
        ("ticket.pattern"@, "ticket pattern"@),
        ("ticket.prefix_format"@, "prefix format"@),
        ("branches.default_base"@, "default base"@),
        ("branches.protected"@, "protected list"@),
        ("branches.naming_pattern"@, "naming pattern"@),
        ("branches.naming_enforcement"@, "naming enforcement"@),
        ("integrations.ticket_url_template"@, "ticket URL template"@),
        ("integrations.pr_provider"@, "PR provider"@),
    ]
}

/// The keys whose layer `tix show` reports, with their labels.
fn source_key_list() -> (v: Vec<(&'static str, &'static str)>)
    ensures
        v@.len() == source_keys().len(),
        forall|i: int| 0 <= i < v@.len() ==> (#[trigger] v@[i]).0@ == source_keys()[i].0 && v@[i].1@ == source_keys()[i].1,
{
    let v = vec![
        ("ticket.pattern", "ticket pattern"),
        ("ticket.prefix_format", "prefix format"),
        ("branches.default_base", "default base"),
        ("branches.protected", "protected list"),
        ("branches.naming_pattern", "naming pattern"),
        ("branches.naming_enforcement", "naming enforcement"),
        ("integrations.ticket_url_template", "ticket URL template"),
        ("integrations.pr_provider", "PR provider"),
    ];
    v
}

/// The first line: the current branch, or why there is none.
pub open spec fn branch_text(in_repo: bool, branch: Option<Seq<char>>) -> Seq<char> {
    if !in_repo {
        "Branch: (not in a git repo)"@
    } else {
        match branch {
            Some(b) => "Branch: "@ + b,
            None => "Branch: (detached HEAD or no commits yet)"@,
        }
    }
}

/// The ticket line for a branch with the state entry `entry`.
pub open spec fn ticket_text(entry: Option<BranchEntry>) -> Seq<char> {
    "Ticket: "@ + match entry {
        Some(e) => match e.ticket {
            Some(t) => t@,
            None => "(no-ticket mode)"@,
        },
        None => "(not set \u{2014} first commit will prompt)"@,
    }
}

/// The line for one protected pattern, marked when it matches the current branch.
pub open spec fn pattern_text(pattern: Seq<char>, branch: Option<Seq<char>>) -> Seq<char> {
    "  - "@ + pattern + if branch is Some && glob_matches(pattern, branch->0) {
        "  \u{2190} current"@
    } else {
        Seq::empty()
    }
}

/// The source lines: for each reported key that the schema knows, its label, the
/// key and the layer that set it.
pub open spec fn source_lines(c: Config, keys: Seq<(Seq<char>, Seq<char>)>) -> Seq<Seq<char>>
    decreases keys.len(),
{
    if keys.len() == 0 {
        Seq::empty()
    } else {
        let k = keys.last();
        source_lines(c, keys.drop_last()) + match field_named(k.0) {
            Some(f) => seq!["  - "@ + k.1 + " ("@ + k.0 + "): "@ + source_name(c.field_source(f))],
            None => Seq::empty(),
        }
    }
}

/// Everything `tix show` prints: the branch; the ticket when on a branch of a
/// repo; the protected patterns and the base when in a repo; the layers of the
/// reported keys.
pub open spec fn show_text(in_repo: bool, branch: Option<Seq<char>>, entry: Option<BranchEntry>, c: Config) -> Seq<Seq<char>> {
    seq![branch_text(in_repo, branch)] + (if in_repo && branch is Some {
        seq![ticket_text(entry)]
    } else {
        Seq::empty()
    }) + (if in_repo {
        seq!["Protected branches:"@] + strings_view(c.branches.protected@).map_values(
            |p: Seq<char>| pattern_text(p, branch),
        ) + seq!["Base: "@ + c.branches.default_base@]
    } else {
        Seq::empty()
    }) + seq!["Config sources:"@] + source_lines(c, source_keys())
}

/// The second line `tix show` prints on a branch of a repository names the
/// branch's ticket: `Ticket: T` when its entry holds the ticket `T`,
/// `Ticket: (no-ticket mode)` only when its entry holds none, and the
/// first-commit note when it has no entry.
pub proof fn law_show_ticket_line(branch: Seq<char>, entry: Option<BranchEntry>, c: Config)
    ensures
        show_text(true, Some(branch), entry, c).len() >= 2,
        entry matches Some(e) ==> (e.ticket matches Some(t) ==> show_text(true, Some(branch), entry, c)[1]
            == "Ticket: "@ + t@),
        entry matches Some(e) ==> (e.ticket is None ==> show_text(true, Some(branch), entry, c)[1]
            == "Ticket: (no-ticket mode)"@),
        entry is None ==> show_text(true, Some(branch), entry, c)[1]
            == "Ticket: (not set \u{2014} first commit will prompt)"@,
{
    reveal_strlit("Ticket: ");
    reveal_strlit("(no-ticket mode)");
    reveal_strlit("Ticket: (no-ticket mode)");
    reveal_strlit("(not set \u{2014} first commit will prompt)");
    reveal_strlit("Ticket: (not set \u{2014} first commit will prompt)");
    let s = show_text(true, Some(branch), entry, c);
    let head = seq![branch_text(true, Some(branch))] + seq![ticket_text(entry)];
    assert(s.subrange(0, 2) =~= head) by {
        assert(s[0] == head[0]);
        assert(s[1] == head[1]);
    }
    assert(s[1] == ticket_text(entry));
}

/// After `tix set-ticket T` on a branch, `tix show` on that branch reports
/// `Ticket: T`.
pub proof fn law_show_after_set_ticket(s: State, branch: Seq<char>, t: String, c: Config)
    requires
        s.entry(branch) matches Some(e) && e.ticket == Some(t),
    ensures
        show_text(true, Some(branch), s.entry(branch), c)[1] == "Ticket: "@ + t@,
{
    law_show_ticket_line(branch, s.entry(branch), c);
}

/// The first line `tix show` prints.
pub fn branch_line(in_repo: bool, branch: Option<&str>) -> (l: String)
    ensures
        l@ == branch_text(in_repo, crate::commands::doctor::str_opt(branch)),
{
    if !in_repo {
        return "Branch: (not in a git repo)".to_owned();
    }
    match branch {
        Some(b) => {
            let mut l = "Branch: ".to_owned();
            l.append(b);
            l
        },
        None => "Branch: (detached HEAD or no commits yet)".to_owned(),
    }
}

fn ticket_line(entry: Option<&BranchEntry>) -> (l: String)
    ensures
        l@ == ticket_text(
            match entry {
                Some(e) => Some(*e),
                None => None,
            },
        ),
{
    let mut l = "Ticket: ".to_owned();
    match entry {
        Some(e) => match &e.ticket {
            Some(t) => l.append(t.as_str()),
            None => l.append("(no-ticket mode)"),
        },
        None => l.append("(not set \u{2014} first commit will prompt)"),
    }
    l
}

/// The lines `tix show` prints. `state` is the clone's state, read when in a repo
/// on a branch.
pub fn show_lines(in_repo: bool, branch: Option<&str>, state: Option<&State>, cfg: &Config) -> (lines: Vec<String>)
    ensures
        strings_view(lines@) == show_text(
            in_repo,
            crate::commands::doctor::str_opt(branch),
            match (state, branch) {
                (Some(s), Some(b)) => s.entry(b@),
                _ => None,
            },
            *cfg,
        ),
        in_repo && branch is Some ==> lines@.len() >= 2,
        in_repo ==> (branch matches Some(b) ==> (state matches Some(st) ==> (st.entry(b@) matches Some(e) ==> (
        e.ticket matches Some(t) ==> lines@[1]@ == "Ticket: "@ + t@)))),
{
    proof {
        if let Some(b) = branch {
            let entry_of = match state {
                Some(st) => st.entry(b@),
                None => None,
            };
            law_show_ticket_line(b@, entry_of, *cfg);
        }
    }
    let ghost bv = crate::commands::doctor::str_opt(branch);
    let mut lines: Vec<String> = Vec::new();
    lines.push(branch_line(in_repo, branch));
    let ghost part1 = strings_view(lines@);
    assert(part1 =~= seq![branch_text(in_repo, bv)]);
    let ghost entry_v = match (state, branch) {
        (Some(s), Some(b)) => s.entry(b@),
        _ => None,
    };
    if in_repo {
        if let Some(b) = branch {
            let entry = match state {
                Some(s) => s.get_branch(b),
                None => None,
            };
            let tl = ticket_line(entry);
            assert(tl@ == ticket_text(entry_v));
            lines.push(tl);
        }
    }
    let ghost part2 = strings_view(lines@);
    assert(part2 =~= part1 + (if in_repo && bv is Some {
        seq![ticket_text(entry_v)]
    } else {
        Seq::empty()
    }));
    if in_repo {
        lines.push("Protected branches:".to_owned());
        let ps = &cfg.branches.protected;
        let ghost base = strings_view(lines@);
        assert(base =~= part2 + seq!["Protected branches:"@]);
        let mut i: usize = 0;
        while i < ps.len()
            invariant
                i <= ps@.len(),
                *ps == cfg.branches.protected,
                bv == crate::commands::doctor::str_opt(branch),
                strings_view(lines@) == base + strings_view(ps@).take(i as int).map_values(
                    |p: Seq<char>| pattern_text(p, bv),
                ),
            decreases ps@.len() - i,
        {
            let mut l = "  - ".to_owned();
            l.append(ps[i].as_str());
            let current = match branch {
                Some(b) => crate::glob::matches(ps[i].as_str(), b),
                None => false,
            };
            if current {
                l.append("  \u{2190} current");
            } else {
                assert(l@ =~= l@ + Seq::<char>::empty());
            }
            let ghost before = strings_view(lines@);
            lines.push(l);
            assert(strings_view(ps@).take(i + 1) =~= strings_view(ps@).take(i as int).push(ps@[i as int]@));
            assert(strings_view(lines@) =~= before.push(pattern_text(ps@[i as int]@, bv)));
            assert(strings_view(lines@) =~= base + strings_view(ps@).take(i + 1).map_values(
                |p: Seq<char>| pattern_text(p, bv),
            ));
            i += 1;
        }
        assert(strings_view(ps@).take(ps@.len() as int) =~= strings_view(ps@));
        let mut l = "Base: ".to_owned();
        l.append(cfg.branches.default_base.as_str());
        let ghost mid = strings_view(lines@);
        assert(mid == base + strings_view(cfg.branches.protected@).map_values(|p: Seq<char>| pattern_text(p, bv)));
        lines.push(l);
        assert(strings_view(lines@) =~= mid.push("Base: "@ + cfg.branches.default_base@));
    }
    let ghost part3 = strings_view(lines@);
    assert(part3 =~= part2 + (if in_repo {
        seq!["Protected branches:"@] + strings_view(cfg.branches.protected@).map_values(
            |p: Seq<char>| pattern_text(p, bv),
        ) + seq!["Base: "@ + cfg.branches.default_base@]
    } else {
        Seq::empty()
    }));
    lines.push("Config sources:".to_owned());
    let keys = source_key_list();
    let ghost base = strings_view(lines@);
    let mut i: usize = 0;
    while i < keys.len()
        invariant
            i <= keys@.len(),
            keys@.len() == source_keys().len(),
            forall|j: int| 0 <= j < keys@.len() ==> (#[trigger] keys@[j]).0@ == source_keys()[j].0 && keys@[j].1@ == source_keys()[j].1,
            strings_view(lines@) == base + source_lines(*cfg, source_keys().take(i as int)),
        decreases keys@.len() - i,
    {
        let ghost before = strings_view(lines@);
        let (key, label) = keys[i];
        assert(source_keys().take(i + 1).drop_last() =~= source_keys().take(i as int));
        assert(source_keys().take(i + 1).last() == source_keys()[i as int]);
        match cfg.source(key) {
            Some(src) => {
                let mut l = "  - ".to_owned();
                l.append(label);
                l.append(" (");
                l.append(key);
                l.append("): ");
                l.append(format_source(src));
                lines.push(l);
                assert(strings_view(lines@) =~= before.push(l@));
            },
            None => {
                assert(strings_view(lines@) =~= before + Seq::<Seq<char>>::empty());
            },
        }
        i += 1;
    }
    assert(source_keys().take(keys@.len() as int) =~= source_keys());
    assert(strings_view(lines@) =~= part3 + seq!["Config sources:"@] + source_lines(*cfg, source_keys()));
    assert(strings_view(lines@) =~= show_text(
        in_repo,
        bv,
        match (state, branch) {
            (Some(s), Some(b)) => s.entry(b@),
            _ => None,
        },
        *cfg,
    ));
    lines
}

} // verus!
