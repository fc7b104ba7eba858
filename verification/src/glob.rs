//! Branch-pattern globs: `*` stands for any run of characters other than `/`.

use vstd::prelude::*;

use crate::regex::{regex_match, regex_outcome};
use crate::slug::is_ascii_alnum;
use crate::text::{chars_of, contains, contains_exec, string_of};

verus! {

/// The regular-expression text that stands for one pattern character.
pub open spec fn glob_char_regex(c: char) -> Seq<char> {
    if c == '*' {
        seq!['[', '^', '/', ']', '*']
    } else if c == '/' {
        seq!['/']
    } else if is_ascii_alnum(c) || c == '-' || c == '_' {
        seq![c]
    } else {
        seq!['\\', c]
    }
}

/// The regular-expression text for the characters of `p`, in order.
pub open spec fn glob_regex_body(p: Seq<char>) -> Seq<char>
    decreases p.len(),
{
    if p.len() == 0 {
        Seq::empty()
    } else {
        glob_regex_body(p.drop_last()) + glob_char_regex(p.last())
    }
}

/// The anchored regular expression for the glob `p`.
pub open spec fn glob_regex(p: Seq<char>) -> Seq<char> {
    seq!['^'] + glob_regex_body(p) + seq!['$']
}

/// The glob `pattern` matches `branch`: it has no `**`, and its regular expression
/// compiles and matches the whole branch name.
pub open spec fn glob_matches(pattern: Seq<char>, branch: Seq<char>) -> bool {
    !contains(pattern, seq!['*', '*']) && regex_outcome(glob_regex(pattern), branch) == Some(true)
}

fn push_all(out: &mut Vec<char>, add: &[char])
    ensures
        final(out)@ == old(out)@ + add@,
{
    let mut i: usize = 0;
    while i < add.len()
        invariant
            i <= add@.len(),
            out@ == old(out)@ + add@.take(i as int),
        decreases add.len() - i,
    {
        out.push(add[i]);
        assert(add@.take(i + 1) =~= add@.take(i as int).push(add@[i as int]));
        i += 1;
    }
    assert(add@.take(add@.len() as int) =~= add@);
}

/// The anchored regular expression for the glob `pattern`.
pub fn glob_to_regex(pattern: &str) -> (re: String)
    ensures
        re@ == glob_regex(pattern@),
{
    let p = chars_of(pattern);
    let mut out: Vec<char> = Vec::new();
    out.push('^');
    let mut i: usize = 0;
    while i < p.len()
        invariant
            p@ == pattern@,
            i <= p@.len(),
            out@ == seq!['^'] + glob_regex_body(p@.take(i as int)),
        decreases p.len() - i,
    {
        let c = p[i];
        assert(p@.take(i + 1).drop_last() =~= p@.take(i as int));
        let ghost before = out@;
        if c == '*' {
            push_all(&mut out, &['[', '^', '/', ']', '*']);
        } else if c == '/' {
            out.push('/');
        } else if ('0' <= c && c <= '9') || ('a' <= c && c <= 'z') || ('A' <= c && c <= 'Z') || c
            == '-' || c == '_' {
            out.push(c);
        } else {
            out.push('\\');
            out.push(c);
        }
        assert(out@ =~= before + glob_char_regex(c));
        i += 1;
    }
    out.push('$');
    assert(p@.take(p@.len() as int) =~= p@);
    string_of(out.as_slice())
}

/// Whether the glob `pattern` matches the whole of `branch`. Patterns holding `**`
/// never match, and neither do patterns whose expression does not compile.
pub fn matches(pattern: &str, branch: &str) -> (b: bool)
    ensures
        b == glob_matches(pattern@, branch@),
{
    let p = chars_of(pattern);
    if contains_exec(p.as_slice(), &['*', '*']) {
        return false;
    }
    let re = glob_to_regex(pattern);
    match regex_match(re.as_str(), branch) {
        Some(m) => m,
        None => false,
    }
}

} // verus!
