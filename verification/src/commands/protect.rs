//! `tix protect` / `tix unprotect`: changing the protected-branch list.

use vstd::prelude::*;

use crate::commands::init::{join_path, path_join};
use crate::text::{str_eq, strings_view};
use crate::toml_doc::{
    child_table, entries_model, find_key, items_model, lemma_entries_model, lemma_items_model, lemma_key_index,
    key_index, law_set_path_well_formed, lemma_items_wf, set_path, set_path_at, table_get, table_put,
    well_formed, TomlValue, TomlView,
};

verus! {

/// Whether `list` holds `item`.
pub fn list_contains(list: &Vec<String>, item: &str) -> (r: bool)
    ensures
        r == strings_view(list@).contains(item@),
{
    let mut i: usize = 0;
    while i < list.len()
        invariant
            i <= list@.len(),
            forall|j: int| 0 <= j < i ==> (#[trigger] list@[j])@ != item@,
        decreases list.len() - i,
    {
        if str_eq(list[i].as_str(), item) {
            assert(strings_view(list@)[i as int] == item@);
            return true;
        }
        i += 1;
    }
    assert(!strings_view(list@).contains(item@)) by {
        assert forall|j: int| 0 <= j < strings_view(list@).len() implies strings_view(list@)[j] != item@ by {
            assert(strings_view(list@)[j] == list@[j]@);
        }
    }
    false
}

/// The list `l` with `b` added at the end, unless it is already there.
pub open spec fn protect_list(l: Seq<Seq<char>>, b: Seq<char>) -> Seq<Seq<char>> {
    if l.contains(b) {
        l
    } else {
        l.push(b)
    }
}

/// The protected list with `branch` added at the end, unless it is already there.
pub fn protect(list: Vec<String>, branch: &str) -> (r: Vec<String>)
    ensures
        strings_view(r@) == protect_list(strings_view(list@), branch@),
{
    let mut list = list;
    if !list_contains(&list, branch) {
        let ghost before = list@;
        list.push(branch.to_owned());
        assert(strings_view(list@) =~= strings_view(before).push(branch@));
    }
    list
}

/// The test that keeps the entries other than `x`.
pub open spec fn other_than(x: Seq<char>) -> spec_fn(Seq<char>) -> bool {
    |e: Seq<char>| e != x
}

/// `s` without the entries equal to `x`, in order.
pub open spec fn remove_all(s: Seq<Seq<char>>, x: Seq<char>) -> Seq<Seq<char>> {
    s.filter(other_than(x))
}

/// The protected list without `branch`, and whether it held it (the caller warns
/// when it did not).
pub fn unprotect(list: Vec<String>, branch: &str) -> (r: (Vec<String>, bool))
    ensures
        strings_view(r.0@) == remove_all(strings_view(list@), branch@),
        r.1 == strings_view(list@).contains(branch@),
{
    let mut kept: Vec<String> = Vec::new();
    let mut removed = false;
    let mut i: usize = 0;
    while i < list.len()
        invariant
            i <= list@.len(),
            strings_view(kept@) == remove_all(strings_view(list@).take(i as int), branch@),
            removed == strings_view(list@).take(i as int).contains(branch@),
        decreases list.len() - i,
    {
        let ghost pre = strings_view(list@).take(i as int);
        assert(strings_view(list@).take(i + 1) =~= pre.push(list@[i as int]@));
        proof {
            reveal_with_fuel(Seq::filter, 1);
        }
        assert(pre.push(list@[i as int]@).drop_last() =~= pre);
        if str_eq(list[i].as_str(), branch) {
            removed = true;
            assert(strings_view(list@).take(i + 1)[i as int] == branch@);
        } else {
            let ghost before = kept@;
            kept.push(list[i].clone());
            assert(strings_view(kept@) =~= strings_view(before).push(list@[i as int]@));
            assert(strings_view(list@).take(i + 1).contains(branch@) == pre.contains(branch@)) by {
                if strings_view(list@).take(i + 1).contains(branch@) {
                    let k = choose|k: int| 0 <= k < i + 1 && #[trigger] strings_view(list@).take(i + 1)[k] == branch@;
                    assert(k < i);
                    assert(pre[k] == branch@);
                }
            }
        }
        i += 1;
    }
    assert(strings_view(list@).take(list@.len() as int) =~= strings_view(list@));
    (kept, removed)
}


/// The TOML array of the strings `list`.
pub open spec fn string_array(list: Seq<Seq<char>>) -> TomlView {
    TomlView::Arr(list.map_values(|x: Seq<char>| TomlView::Str(x)))
}

/// What writing the protected list `list` does to a config document: the
/// `[branches]` table (made when missing) gets `protected = list`; the document
/// must be a table, and so must an existing `branches` entry.
pub open spec fn protected_outcome(doc: TomlView, list: Seq<Seq<char>>) -> Result<TomlView, Seq<char>> {
    match doc {
        TomlView::Tab(t) => match table_get(t, "branches"@) {
            Some(TomlView::Tab(b)) => Ok(
                TomlView::Tab(table_put(t, "branches"@, TomlView::Tab(table_put(b, "protected"@, string_array(list))))),
            ),
            None => Ok(
                TomlView::Tab(
                    table_put(t, "branches"@, TomlView::Tab(seq![("protected"@, string_array(list))])),
                ),
            ),
            Some(_) => Err("[branches] is not a table"@),
        },
        _ => Err("expected top-level table"@),
    }
}

/// Writes the protected list `list` into a config document, as `protected_outcome`
/// says.
pub fn set_protected_list(doc: &mut TomlValue, list: &Vec<String>) -> (r: Result<(), String>)
    ensures
        match protected_outcome(old(doc).model(), strings_view(list@)) {
            Ok(d) => r is Ok && final(doc).model() == d,
            Err(e) => (r matches Err(m) && m@ == e) && *final(doc) == *old(doc),
        },
        well_formed(old(doc).model()) ==> well_formed(final(doc).model()),
{
    let ghost d0 = doc.model();
    let is_table_with_branches_ok = match &*doc {
        TomlValue::Table(t) => {
            let pos = find_key(t, "branches");
            proof {
                lemma_entries_model(t@);
                lemma_key_index(entries_model(t@), "branches"@, 0);
            }
            if pos < t.len() {
                match &t[pos].1 {
                    TomlValue::Table(_) => Ok(()),
                    _ => Err("[branches] is not a table".to_owned()),
                }
            } else {
                Ok(())
            }
        },
        _ => Err("expected top-level table".to_owned()),
    };
    match is_table_with_branches_ok {
        Ok(()) => {},
        Err(e) => {
            return Err(e);
        },
    }
    let mut items: Vec<TomlValue> = Vec::new();
    let mut i: usize = 0;
    while i < list.len()
        invariant
            i <= list@.len(),
            items@.len() == i,
            forall|j: int| 0 <= j < i ==> (#[trigger] items@[j]).model() == TomlView::Str(list@[j]@),
        decreases list@.len() - i,
    {
        items.push(TomlValue::String(list[i].clone()));
        i += 1;
    }
    proof {
        lemma_items_model(items@);
        assert(items_model(items@) =~= strings_view(list@).map_values(|x: Seq<char>| TomlView::Str(x)));
    }
    let parts = vec!["branches".to_owned(), "protected".to_owned()];
    let ghost ps = strings_view(parts@);
    assert(ps =~= seq!["branches"@, "protected"@]);
    let ghost arr = string_array(strings_view(list@));
    let mut d = TomlValue::Table(Vec::new());
    std::mem::swap(&mut d, doc);
    let nd = set_path_at(d, &parts, TomlValue::Array(items));
    proof {
        let t = d0->Tab_0;
        let inner = seq!["protected"@];
        assert(ps.drop_first() =~= inner);
        assert(inner.drop_first() =~= Seq::<Seq<char>>::empty());
        assert(set_path(child_table(t, "branches"@), inner, arr) == match child_table(t, "branches"@) {
            TomlView::Tab(c) => TomlView::Tab(table_put(c, "protected"@, arr)),
            _ => child_table(t, "branches"@),
        });
        assert(set_path(d0, ps, arr) == TomlView::Tab(table_put(t, "branches"@, set_path(child_table(t, "branches"@), inner, arr))));
        let e = Seq::<(Seq<char>, TomlView)>::empty();
        assert(key_index(e, "protected"@, 0) == 0);
        assert(table_put(e, "protected"@, arr) =~= seq![("protected"@, arr)]);
        if well_formed(d0) {
            let strs = strings_view(list@).map_values(|x: Seq<char>| TomlView::Str(x));
            lemma_items_wf(strs);
            law_set_path_well_formed(d0, ps, arr);
        }
    }
    *doc = nd;
    Ok(())
}


/// The file `tix protect` / `tix unprotect` write: the repo's `.tix.toml` with
/// `--repo`, the global `config.toml` otherwise.
pub open spec fn protect_target(repo: bool, repo_root: Option<Seq<char>>, config_dir: Option<Seq<char>>) -> Result<Seq<char>, Seq<char>> {
    if repo {
        match repo_root {
            Some(r) => Ok(path_join(r, ".tix.toml"@)),
            None => Err("--repo requires being inside a git repo"@),
        }
    } else {
        match config_dir {
            Some(d) => Ok(path_join(d, "config.toml"@)),
            None => Err("could not resolve config dir"@),
        }
    }
}

/// Without `--repo`, `tix protect` edits the global `config.toml` in the config
/// directory, wherever it runs: the repository it runs in plays no part. With
/// `--repo` it edits the repository's `.tix.toml`, whatever the config directory.
pub proof fn law_protect_target_scope(
    root: Option<Seq<char>>,
    dir: Option<Seq<char>>,
    other_root: Option<Seq<char>>,
    other_dir: Option<Seq<char>>,
)
    ensures
        protect_target(false, root, dir) == protect_target(false, other_root, dir),
        dir matches Some(d) ==> protect_target(false, root, dir) == Ok::<Seq<char>, Seq<char>>(
            path_join(d, "config.toml"@),
        ),
        protect_target(true, root, dir) == protect_target(true, root, other_dir),
        root matches Some(r) ==> protect_target(true, root, dir) == Ok::<Seq<char>, Seq<char>>(
            path_join(r, ".tix.toml"@),
        ),
{
}

/// The file to write, from the repo root (when inside a repo) and the config
/// directory (when it could be resolved).
pub fn target_path(repo: bool, repo_root: Option<&str>, config_dir: Option<&str>) -> (r: Result<String, String>)
    ensures
        match protect_target(repo, crate::commands::doctor::str_opt(repo_root), crate::commands::doctor::str_opt(config_dir)) {
            Ok(p) => r matches Ok(x) && x@ == p,
            Err(e) => r matches Err(m) && m@ == e,
        },
        !repo && config_dir is Some ==> (r matches Ok(x) && x@ == path_join(config_dir->0@, "config.toml"@)),
        repo && repo_root is Some ==> (r matches Ok(x) && x@ == path_join(repo_root->0@, ".tix.toml"@)),
{
    proof {
        law_protect_target_scope(
            crate::commands::doctor::str_opt(repo_root),
            crate::commands::doctor::str_opt(config_dir),
            None,
            None,
        );
    }
    if repo {
        match repo_root {
            Some(root) => Ok(join_path(root, ".tix.toml")),
            None => Err("--repo requires being inside a git repo".to_owned()),
        }
    } else {
        match config_dir {
            Some(d) => Ok(join_path(d, "config.toml")),
            None => Err("could not resolve config dir".to_owned()),
        }
    }
}

/// The lines `tix protect` / `tix unprotect` print: a heading, then each resolved
/// pattern as a list item.
pub open spec fn resolved_list_lines(list: Seq<Seq<char>>) -> Seq<Seq<char>> {
    seq!["protected branches:"@] + list.map_values(|p: Seq<char>| "  - "@ + p)
}

/// The lines that show the resolved protected list.
pub fn resolved_list(list: &Vec<String>) -> (lines: Vec<String>)
    ensures
        strings_view(lines@) == resolved_list_lines(strings_view(list@)),
{
    let mut lines: Vec<String> = Vec::new();
    lines.push("protected branches:".to_owned());
    let mut i: usize = 0;
    while i < list.len()
        invariant
            i <= list@.len(),
            lines@.len() == i + 1,
            lines@[0]@ == "protected branches:"@,
            forall|j: int| 0 <= j < i ==> (#[trigger] lines@[j + 1])@ == "  - "@ + list@[j]@,
        decreases list@.len() - i,
    {
        let mut l = "  - ".to_owned();
        l.append(list[i].as_str());
        lines.push(l);
        i += 1;
    }
    assert forall|k: int| 1 <= k < lines@.len() implies #[trigger] strings_view(lines@)[k] == resolved_list_lines(strings_view(list@))[k] by {
        assert(lines@[(k - 1) + 1]@ == "  - "@ + list@[k - 1]@);
    }
    assert(strings_view(lines@) =~= resolved_list_lines(strings_view(list@)));
    lines
}


/// Protecting a branch twice is the same as once, and afterwards the list holds it.
pub proof fn law_protect_idempotent(l: Seq<Seq<char>>, b: Seq<char>)
    ensures
        protect_list(protect_list(l, b), b) == protect_list(l, b),
        protect_list(l, b).contains(b),
{
    if !l.contains(b) {
        assert(l.push(b)[l.len() as int] == b);
    }
}

/// After unprotecting a branch the list does not hold it, and the other entries
/// keep their order.
pub proof fn law_unprotect_removes(l: Seq<Seq<char>>, b: Seq<char>)
    ensures
        !remove_all(l, b).contains(b),
        forall|i: int| 0 <= i < l.len() && l[i] != b ==> #[trigger] remove_all(l, b).contains(l[i]),
{
    let pred = other_than(b);
    assert forall|i: int| 0 <= i < remove_all(l, b).len() implies remove_all(l, b)[i] != b by {
        l.lemma_filter_pred(pred, i);
    }
    assert forall|i: int| 0 <= i < l.len() && l[i] != b implies #[trigger] remove_all(l, b).contains(l[i]) by {
        l.lemma_filter_contains(pred, i);
    }
}

/// Unprotecting a branch just protected gives the list without it: the two undo
/// each other for a branch that was not protected before.
pub proof fn law_unprotect_undoes_protect(l: Seq<Seq<char>>, b: Seq<char>)
    ensures
        remove_all(protect_list(l, b), b) == remove_all(l, b),
        !l.contains(b) ==> remove_all(protect_list(l, b), b) == l,
{
    if !l.contains(b) {
        reveal_with_fuel(Seq::filter, 1);
        assert(l.push(b).drop_last() =~= l);
        lemma_filter_keeps_all(l, b);
    }
}

proof fn lemma_filter_keeps_all(l: Seq<Seq<char>>, b: Seq<char>)
    requires
        !l.contains(b),
    ensures
        remove_all(l, b) == l,
    decreases l.len(),
{
    reveal_with_fuel(Seq::filter, 1);
    if l.len() > 0 {
        assert(!l.drop_last().contains(b)) by {
            if l.drop_last().contains(b) {
                let k = choose|k: int| 0 <= k < l.drop_last().len() && l.drop_last()[k] == b;
                assert(l[k] == b);
            }
        }
        lemma_filter_keeps_all(l.drop_last(), b);
        assert(l[l.len() - 1] != b);
        assert(l.drop_last().push(l.last()) =~= l);
    } else {
        assert(l.filter(other_than(b)) =~= l);
    }
}

} // verus!
