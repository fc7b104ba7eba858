//! Turning free text into a branch-name fragment.

use vstd::prelude::*;

use crate::text::{chars_of, string_of};

verus! {

/// `c` is an ASCII letter or digit.
pub open spec fn is_ascii_alnum(c: char) -> bool {
    ||| ('0' <= c && c <= '9')
    ||| ('a' <= c && c <= 'z')
    ||| ('A' <= c && c <= 'Z')
}

/// `c` with an ASCII upper-case letter mapped to its lower-case form.
pub open spec fn ascii_lower(c: char) -> char {
    if 'A' <= c && c <= 'Z' {
        ((c as u32) + 32) as char
    } else {
        c
    }
}

fn is_ascii_alnum_exec(c: char) -> (b: bool)
    ensures
        b == is_ascii_alnum(c),
{
    ('0' <= c && c <= '9') || ('a' <= c && c <= 'z') || ('A' <= c && c <= 'Z')
}

fn ascii_lower_exec(c: char) -> (r: char)
    ensures
        r == ascii_lower(c),
{
    if 'A' <= c && c <= 'Z' {
        let b: u8 = (c as u8) + 32;
        b as char
    } else {
        c
    }
}

/// The text read left to right: each ASCII letter or digit is kept (lower-cased), and
/// each other character becomes a dash, unless nothing has been kept yet or the text
/// so far already ends in a dash.
pub open spec fn collapse(s: Seq<char>) -> Seq<char>
    decreases s.len(),
{
    if s.len() == 0 {
        Seq::empty()
    } else {
        let prev = collapse(s.drop_last());
        let c = s.last();
        if is_ascii_alnum(c) {
            prev.push(ascii_lower(c))
        } else if prev.len() == 0 || prev.last() == '-' {
            prev
        } else {
            prev.push('-')
        }
    }
}

/// `s` without the dashes at its end.
pub open spec fn strip_trailing_dashes(s: Seq<char>) -> Seq<char>
    decreases s.len(),
{
    if s.len() > 0 && s.last() == '-' {
        strip_trailing_dashes(s.drop_last())
    } else {
        s
    }
}

/// The slug of `s`: the collapsed text without trailing dashes, cut to at most
/// `max_len` characters (dropping the dashes that the cut leaves at the end).
pub open spec fn slug_of(s: Seq<char>, max_len: nat) -> Seq<char> {
    let t = strip_trailing_dashes(collapse(s));
    if t.len() > max_len {
        strip_trailing_dashes(t.take(max_len as int))
    } else {
        t
    }
}

/// `t` is a well-formed slug: lower-case ASCII letters, digits and single dashes,
/// neither starting nor ending with a dash.
pub open spec fn is_slug(t: Seq<char>) -> bool {
    &&& forall|i: int| 0 <= i < t.len() ==> slug_char(#[trigger] t[i])
    &&& t.len() > 0 ==> t[0] != '-' && t.last() != '-'
    &&& forall|i: int| 0 <= i < t.len() - 1 ==> !(#[trigger] t[i] == '-' && t[i + 1] == '-')
}

/// A character that may appear in a slug.
pub open spec fn slug_char(c: char) -> bool {
    ||| ('0' <= c && c <= '9')
    ||| ('a' <= c && c <= 'z')
    ||| c == '-'
}

/// What `collapse` builds: slug characters, no leading dash, no doubled dash.
spec fn collapsed_shape(t: Seq<char>) -> bool {
    &&& forall|i: int| 0 <= i < t.len() ==> slug_char(#[trigger] t[i])
    &&& t.len() > 0 ==> t[0] != '-'
    &&& forall|i: int| 0 <= i < t.len() - 1 ==> !(#[trigger] t[i] == '-' && t[i + 1] == '-')
}

proof fn lemma_collapse_shape(s: Seq<char>)
    ensures
        collapsed_shape(collapse(s)),
    decreases s.len(),
{
    if s.len() > 0 {
        lemma_collapse_shape(s.drop_last());
        let prev = collapse(s.drop_last());
        let c = s.last();
        let r = collapse(s);
        if is_ascii_alnum(c) {
            assert(slug_char(ascii_lower(c)));
            assert forall|i: int| 0 <= i < r.len() - 1 implies !(#[trigger] r[i] == '-' && r[i + 1] == '-') by {
                if i < prev.len() - 1 {
                    assert(r[i] == prev[i] && r[i + 1] == prev[i + 1]);
                }
            }
            assert forall|i: int| 0 <= i < r.len() implies slug_char(#[trigger] r[i]) by {
                if i < prev.len() {
                    assert(r[i] == prev[i]);
                }
            }
        } else if !(prev.len() == 0 || prev.last() == '-') {
            assert forall|i: int| 0 <= i < r.len() - 1 implies !(#[trigger] r[i] == '-' && r[i + 1] == '-') by {
                if i < prev.len() - 1 {
                    assert(r[i] == prev[i] && r[i + 1] == prev[i + 1]);
                }
            }
            assert forall|i: int| 0 <= i < r.len() implies slug_char(#[trigger] r[i]) by {
                if i < prev.len() {
                    assert(r[i] == prev[i]);
                }
            }
        }
    }
}

proof fn lemma_take_keeps_shape(t: Seq<char>, n: int)
    requires
        collapsed_shape(t),
        0 <= n <= t.len(),
    ensures
        collapsed_shape(t.take(n)),
{
    let u = t.take(n);
    assert forall|i: int| 0 <= i < u.len() implies slug_char(#[trigger] u[i]) by {
        assert(u[i] == t[i]);
    }
    assert forall|i: int| 0 <= i < u.len() - 1 implies !(#[trigger] u[i] == '-' && u[i + 1] == '-') by {
        assert(u[i] == t[i] && u[i + 1] == t[i + 1]);
    }
}

proof fn lemma_strip_is_slug(t: Seq<char>)
    requires
        collapsed_shape(t),
    ensures
        is_slug(strip_trailing_dashes(t)),
        strip_trailing_dashes(t).len() <= t.len(),
    decreases t.len(),
{
    if t.len() > 0 && t.last() == '-' {
        lemma_take_keeps_shape(t, t.len() - 1);
        assert(t.drop_last() =~= t.take(t.len() - 1));
        lemma_strip_is_slug(t.drop_last());
    }
}

/// The slug of any text is a well-formed slug no longer than the limit.
pub proof fn lemma_slug_of_shape(s: Seq<char>, max_len: nat)
    ensures
        is_slug(slug_of(s, max_len)),
        slug_of(s, max_len).len() <= max_len,
{
    lemma_collapse_shape(s);
    let stripped = strip_trailing_dashes(collapse(s));
    lemma_strip_is_slug(collapse(s));
    if stripped.len() > max_len {
        lemma_take_keeps_shape(stripped, max_len as int);
        lemma_strip_is_slug(stripped.take(max_len as int));
    }
}

proof fn lemma_collapse_fixed(t: Seq<char>)
    requires
        collapsed_shape(t),
    ensures
        collapse(t) == t,
    decreases t.len(),
{
    if t.len() > 0 {
        lemma_take_keeps_shape(t, t.len() - 1);
        assert(t.drop_last() =~= t.take(t.len() - 1));
        lemma_collapse_fixed(t.drop_last());
        let c = t.last();
        assert(slug_char(t[t.len() - 1]));
        if c == '-' {
            assert(t.len() > 1);
            assert(!(t[t.len() - 2] == '-' && t[t.len() - 1] == '-'));
            assert(t.drop_last().last() == t[t.len() - 2]);
        }
        assert(t.drop_last().push(c) =~= t);
    }
}

/// A well-formed slug within the limit is its own slug.
pub proof fn law_slug_fixed(t: Seq<char>, max_len: nat)
    requires
        is_slug(t),
        t.len() <= max_len,
    ensures
        slug_of(t, max_len) == t,
{
    lemma_collapse_fixed(t);
}

/// Slugifying a slug again changes nothing: `slugify(slugify(s, n), n)` is
/// `slugify(s, n)`.
pub proof fn law_slugify_idempotent(s: Seq<char>, max_len: nat)
    ensures
        slug_of(slug_of(s, max_len), max_len) == slug_of(s, max_len),
{
    lemma_slug_of_shape(s, max_len);
    law_slug_fixed(slug_of(s, max_len), max_len);
}

/// Lower-cases `s`, turns each run of characters other than ASCII letters and digits
/// into a single dash, drops dashes at both ends, and cuts the result to at most
/// `max_len` characters without leaving a trailing dash.
pub fn slugify(s: &str, max_len: usize) -> (out: String)
    ensures
        out@ == slug_of(s@, max_len as nat),
        is_slug(out@),
        out@.len() <= max_len,
{
    let input = chars_of(s);
    let mut out: Vec<char> = Vec::new();
    let mut prev_dash = true;
    let mut i: usize = 0;
    while i < input.len()
        invariant
            input@ == s@,
            i <= input.len(),
            out@ == collapse(s@.take(i as int)),
            prev_dash == (out@.len() == 0 || out@.last() == '-'),
        decreases input.len() - i,
    {
        let c = input[i];
        assert(s@.take(i + 1).drop_last() =~= s@.take(i as int));
        if is_ascii_alnum_exec(c) {
            out.push(ascii_lower_exec(c));
            prev_dash = false;
        } else if !prev_dash {
            out.push('-');
            prev_dash = true;
        }
        i += 1;
    }
    assert(s@.take(input.len() as int) =~= s@);
    proof {
        lemma_collapse_shape(s@);
    }
    let ghost collapsed = out@;
    while out.len() > 0 && out[out.len() - 1] == '-'
        invariant
            strip_trailing_dashes(out@) == strip_trailing_dashes(collapsed),
        decreases out.len(),
    {
        out.pop();
    }
    let ghost stripped = out@;
    assert(stripped == strip_trailing_dashes(collapsed));
    proof {
        lemma_strip_is_slug(collapsed);
    }
    if out.len() > max_len {
        out.truncate(max_len);
        assert(out@ =~= stripped.take(max_len as int));
        proof {
            lemma_take_keeps_shape(stripped, max_len as int);
            lemma_strip_is_slug(stripped.take(max_len as int));
        }
        let ghost cut = out@;
        while out.len() > 0 && out[out.len() - 1] == '-'
            invariant
                strip_trailing_dashes(out@) == strip_trailing_dashes(cut),
            decreases out.len(),
        {
            out.pop();
        }
    }
    string_of(out.as_slice())
}

} // verus!
