//! `pre-push`: refusing pushes that update a protected branch.

use vstd::prelude::*;

use crate::config::{strings_view, Source};
use crate::glob::glob_matches;
use crate::text::{pairs_view, 
    chars_of, decimal, lemma_line_end_bounds, line_end, line_end_exec, slice_chars, string_of,
    strip_prefix, strip_prefix_exec, u64_to_decimal, words, words_exec,
};
use crate::commands::config_cmd::{format_source, source_label};

verus! {

/// The first of `patterns` that matches `branch`.
pub open spec fn first_matching(patterns: Seq<Seq<char>>, branch: Seq<char>) -> Option<Seq<char>>
    decreases patterns.len(),
{
    if patterns.len() == 0 {
        None
    } else if glob_matches(patterns[0], branch) {
        Some(patterns[0])
    } else {
        first_matching(patterns.drop_first(), branch)
    }
}

/// The first protected pattern that matches `branch`, if any.
pub fn first_matching_pattern(branch: &str, patterns: &Vec<String>) -> (r: Option<String>)
    ensures
        r matches Some(p) ==> first_matching(strings_view(patterns@), branch@) == Some(p@),
        r is None ==> first_matching(strings_view(patterns@), branch@) is None,
{
    let mut i: usize = 0;
    assert(strings_view(patterns@).skip(0) =~= strings_view(patterns@));
    while i < patterns.len()
        invariant
            i <= patterns@.len(),
            first_matching(strings_view(patterns@), branch@) == first_matching(
                strings_view(patterns@).skip(i as int),
                branch@,
            ),
        decreases patterns.len() - i,
    {
        assert(strings_view(patterns@).skip(i as int).drop_first() =~= strings_view(patterns@).skip(
            i + 1,
        ));
        assert(strings_view(patterns@).skip(i as int)[0] == patterns@[i as int]@);
        if crate::glob::matches(patterns[i].as_str(), branch) {
            return Some(patterns[i].clone());
        }
        i += 1;
    }
    None
}

/// Every character of `s` is `0` (the object name git sends for a deleted ref).
pub open spec fn all_zeros(s: Seq<char>) -> bool {
    forall|i: int| 0 <= i < s.len() ==> s[i] == '0'
}

/// The branch a local ref names: without `refs/heads/` when it has that prefix.
pub open spec fn ref_branch(local_ref: Seq<char>) -> Seq<char> {
    match strip_prefix(local_ref, "refs/heads/"@) {
        Some(b) => b,
        None => local_ref,
    }
}

/// The local branch one line of git's pre-push input updates: the line has at
/// least four words and its local object is not all zeros (not a deletion).
pub open spec fn line_branch(line: Seq<char>) -> Option<Seq<char>> {
    let parts = words(line);
    if parts.len() < 4 || all_zeros(parts[1]) {
        None
    } else {
        Some(ref_branch(parts[0]))
    }
}

/// The violation one line of git's pre-push input reports: the branch it updates,
/// when a protected pattern matches it, with the pattern.
pub open spec fn line_violation(line: Seq<char>, patterns: Seq<Seq<char>>) -> Option<(Seq<char>, Seq<char>)> {
    match line_branch(line) {
        Some(b) => match first_matching(patterns, b) {
            Some(p) => Some((b, p)),
            None => None,
        },
        None => None,
    }
}

/// The local branch one line of git's pre-push input updates, if any.
pub fn pushed_branch(line: &str) -> (r: Option<String>)
    ensures
        r matches Some(b) ==> line_branch(line@) == Some(b@),
        r is None ==> line_branch(line@) is None,
{
    let cs = chars_of(line);
    let parts = words_exec(cs.as_slice());
    if parts.len() < 4 {
        return None;
    }
    let sha = &parts[1];
    let mut k: usize = 0;
    while k < sha.len()
        invariant
            k <= sha@.len(),
            forall|j: int| 0 <= j < k ==> sha@[j] == '0',
        ensures
            k <= sha@.len(),
            forall|j: int| 0 <= j < k ==> sha@[j] == '0',
            k < sha@.len() ==> sha@[k as int] != '0',
        decreases sha.len() - k,
    {
        if sha[k] != '0' {
            break;
        }
        k += 1;
    }
    assert(parts@[1]@ == words(line@)[1]);
    assert(parts@[0]@ == words(line@)[0]);
    if k == sha.len() {
        return None;
    }
    let heads = chars_of("refs/heads/");
    let branch_chars = match strip_prefix_exec(parts[0].as_slice(), heads.as_slice()) {
        Some(b) => b,
        None => slice_chars(parts[0].as_slice(), 0, parts[0].len()),
    };
    assert(parts[0]@.subrange(0, parts[0]@.len() as int) =~= parts[0]@);
    Some(string_of(branch_chars.as_slice()))
}

/// The violation reported by one line of git's pre-push input, if any.
pub fn check_one_line(line: &str, patterns: &Vec<String>) -> (r: Option<(String, String)>)
    ensures
        r matches Some((b, p)) ==> line_violation(line@, strings_view(patterns@)) == Some((b@, p@)),
        r is None ==> line_violation(line@, strings_view(patterns@)) is None,
{
    match pushed_branch(line) {
        Some(branch) => match first_matching_pattern(branch.as_str(), patterns) {
            Some(p) => Some((branch, p)),
            None => None,
        },
        None => None,
    }
}

/// The branches updated by the lines of `s` that start at `from` or later, in
/// order.
pub open spec fn branches_from(s: Seq<char>, from: int) -> Seq<Seq<char>>
    decreases s.len() - from,
{
    if from < 0 || from > s.len() {
        Seq::empty()
    } else {
        let e = line_end(s, from);
        proof {
            lemma_line_end_bounds(s, from);
        }
        let here = match line_branch(s.subrange(from, e)) {
            Some(b) => seq![b],
            None => Seq::empty(),
        };
        if e >= s.len() {
            here
        } else {
            here + branches_from(s, e + 1)
        }
    }
}

/// The local branches a push updates (deletions left out), read from git's
/// pre-push input.
pub fn pushed_branches(input: &str) -> (out: Vec<String>)
    ensures
        strings_view(out@) == branches_from(input@, 0),
{
    let cs = chars_of(input);
    let mut out: Vec<String> = Vec::new();
    let mut from: usize = 0;
    assert(strings_view(out@) + branches_from(input@, 0) =~= branches_from(input@, 0));
    loop
        invariant
            cs@ == input@,
            from <= cs@.len(),
            strings_view(out@) + branches_from(input@, from as int) == branches_from(input@, 0),
        decreases cs.len() - from,
    {
        let e = line_end_exec(cs.as_slice(), from);
        proof {
            lemma_line_end_bounds(cs@, from as int);
        }
        let seg = slice_chars(cs.as_slice(), from, e);
        let line = string_of(seg.as_slice());
        let ghost before = strings_view(out@);
        let ghost rest = if e >= cs@.len() {
            Seq::<Seq<char>>::empty()
        } else {
            branches_from(input@, e + 1)
        };
        match pushed_branch(line.as_str()) {
            Some(b) => {
                out.push(b);
                assert(strings_view(out@) =~= before.push(out@.last()@));
            },
            None => {},
        }
        if e >= cs.len() {
            assert(rest =~= Seq::<Seq<char>>::empty());
            assert(strings_view(out@) + rest =~= strings_view(out@));
            return out;
        }
        assert(branches_from(input@, from as int) == (match line_branch(input@.subrange(from as int, e as int)) {
            Some(b) => seq![b],
            None => Seq::empty(),
        }) + rest);
        assert(strings_view(out@) + rest =~= before + branches_from(input@, from as int));
        from = e + 1;
    }
}

/// The violations reported by the lines of `s` that start at `from` or later, in
/// order.
pub open spec fn violations_from(s: Seq<char>, from: int, patterns: Seq<Seq<char>>) -> Seq<(Seq<char>, Seq<char>)>
    decreases s.len() - from,
{
    if from < 0 || from > s.len() {
        Seq::empty()
    } else {
        let e = line_end(s, from);
        proof {
            lemma_line_end_bounds(s, from);
        }
        let here = match line_violation(s.subrange(from, e), patterns) {
            Some(v) => seq![v],
            None => Seq::empty(),
        };
        if e >= s.len() {
            here
        } else {
            here + violations_from(s, e + 1, patterns)
        }
    }
}

/// The protected refs a push would update, read from git's pre-push input (one
/// line per ref: local ref, local object, remote ref, remote object).
pub fn check_lines(input: &str, patterns: &Vec<String>) -> (out: Vec<(String, String)>)
    ensures
        pairs_view(out@) == violations_from(input@, 0, strings_view(patterns@)),
{
    let cs = chars_of(input);
    let mut out: Vec<(String, String)> = Vec::new();
    let mut from: usize = 0;
    assert(pairs_view(out@) + violations_from(input@, 0, strings_view(patterns@)) =~= violations_from(input@, 0, strings_view(patterns@)));
    loop
        invariant
            cs@ == input@,
            from <= cs@.len(),
            pairs_view(out@) + violations_from(input@, from as int, strings_view(patterns@))
                == violations_from(input@, 0, strings_view(patterns@)),
        decreases cs.len() - from,
    {
        let e = line_end_exec(cs.as_slice(), from);
        proof {
            lemma_line_end_bounds(cs@, from as int);
        }
        let seg = slice_chars(cs.as_slice(), from, e);
        let line = string_of(seg.as_slice());
        let ghost before = pairs_view(out@);
        let ghost rest = if e >= cs@.len() {
            Seq::<(Seq<char>, Seq<char>)>::empty()
        } else {
            violations_from(input@, e + 1, strings_view(patterns@))
        };
        match check_one_line(line.as_str(), patterns) {
            Some(v) => {
                out.push(v);
                assert(pairs_view(out@) =~= before.push((out@.last().0@, out@.last().1@)));
            },
            None => {},
        }
        if e >= cs.len() {
            assert(rest =~= Seq::<(Seq<char>, Seq<char>)>::empty());
            assert(pairs_view(out@) + rest =~= pairs_view(out@));
            return out;
        }
        assert(violations_from(input@, from as int, strings_view(patterns@)) == (match line_violation(
            input@.subrange(from as int, e as int),
            strings_view(patterns@),
        ) {
            Some(v) => seq![v],
            None => Seq::empty(),
        }) + rest);
        assert(pairs_view(out@) + rest =~= before + violations_from(
            input@,
            from as int,
            strings_view(patterns@),
        ));
        from = e + 1;
    }
}

/// The message that refuses a push: how many refs, where the protected list comes
/// from, each branch with the pattern it matches, and how to bypass the check.
pub open spec fn push_block_text(violations: Seq<(Seq<char>, Seq<char>)>, source: Seq<char>) -> Seq<char> {
    "push blocked: "@ + decimal(violations.len()) + " protected ref(s) (from "@ + source + "):\n"@
        + violation_lines(violations) + "pass --no-verify to bypass."@
}

/// One line per violation: `  - BRANCH matches 'PATTERN'`.
pub open spec fn violation_lines(violations: Seq<(Seq<char>, Seq<char>)>) -> Seq<char>
    decreases violations.len(),
{
    if violations.len() == 0 {
        Seq::empty()
    } else {
        violation_lines(violations.drop_last()) + "  - "@ + violations.last().0 + " matches '"@
            + violations.last().1 + "'\n"@
    }
}

/// The message that refuses a push of the protected refs `violations`, whose
/// protected list comes from `source` (`?` when unknown).
pub fn push_block_message(violations: &Vec<(String, String)>, source: Option<Source>) -> (m: String)
    ensures
        m@ == push_block_text(pairs_view(violations@), source_label(source)),
{
    let mut m = "push blocked: ".to_owned();
    let n = u64_to_decimal(violations.len() as u64);
    m.append(n.as_str());
    m.append(" protected ref(s) (from ");
    let label = match source {
        Some(s) => format_source(s),
        None => "?",
    };
    m.append(label);
    m.append("):\n");
    let ghost head = m@;
    let mut i: usize = 0;
    while i < violations.len()
        invariant
            i <= violations@.len(),
            m@ == head + violation_lines(pairs_view(violations@).take(i as int)),
        decreases violations.len() - i,
    {
        assert(pairs_view(violations@).take(i + 1).drop_last() =~= pairs_view(violations@).take(i as int));
        m.append("  - ");
        m.append(violations[i].0.as_str());
        m.append(" matches '");
        m.append(violations[i].1.as_str());
        m.append("'\n");
        i += 1;
    }
    assert(pairs_view(violations@).take(violations@.len() as int) =~= pairs_view(violations@));
    m.append("pass --no-verify to bypass.");
    m
}

} // verus!
