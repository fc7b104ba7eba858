//! `prepare-commit-msg`: putting the branch's ticket in front of the first real line
//! of the commit message.

use vstd::prelude::*;

use crate::regex::{regex_compiles, regex_match};
use crate::text::{
    chars_of, concat_chars, is_white, is_white_exec, lemma_line_end_bounds, lemma_trim_start_len,
    line_end, line_end_exec, replace_all, replace_all_chars, slice_chars, str_eq, string_of,
    trim_start,
};
use crate::ticket::{extract_prefix, prefix_ticket, TicketError};

verus! {

/// A line of a commit message that counts: after its leading white space it is not
/// empty and does not start with `#`.
pub open spec fn is_real_line(l: Seq<char>) -> bool {
    let t = trim_start(l);
    t.len() > 0 && t[0] != '#'
}

/// The first real line of `s` among the newline-separated lines that start at `from`
/// or later, as the range `(start, end)` of its characters (the newline excluded).
pub open spec fn first_real_from(s: Seq<char>, from: int) -> Option<(int, int)>
    decreases s.len() - from,
{
    if from < 0 || from > s.len() {
        None
    } else {
        let e = line_end(s, from);
        proof {
            lemma_line_end_bounds(s, from);
        }
        if is_real_line(s.subrange(from, e)) {
            Some((from, e))
        } else if e >= s.len() {
            None
        } else {
            first_real_from(s, e + 1)
        }
    }
}

/// The message template `fmt` with `{ticket}` and then `{message}` substituted.
pub open spec fn format_with(fmt: Seq<char>, ticket: Seq<char>, message: Seq<char>) -> Seq<char> {
    replace_all(
        replace_all(fmt, seq!['{', 't', 'i', 'c', 'k', 'e', 't', '}'], ticket),
        seq!['{', 'm', 'e', 's', 's', 'a', 'g', 'e', '}'],
        message,
    )
}

/// The commit message `content` with its first real line put through the template;
/// when it has no real line, a new first line made from the template with an empty
/// message is put before it.
pub open spec fn prefixed_content(content: Seq<char>, fmt: Seq<char>, ticket: Seq<char>) -> Seq<
    char,
> {
    match first_real_from(content, 0) {
        Some((a, b)) => content.take(a) + format_with(fmt, ticket, content.subrange(a, b))
            + content.skip(b),
        None => if content.len() == 0 {
            format_with(fmt, ticket, Seq::empty())
        } else {
            format_with(fmt, ticket, Seq::empty()) + seq!['\n'] + content
        },
    }
}

/// The first real line of `content` as `str::lines` yields it: a `\r` before the
/// newline that ends it is dropped.
pub open spec fn first_real_line_of(content: Seq<char>) -> Option<Seq<char>> {
    match first_real_from(content, 0) {
        Some((a, b)) => Some(
            if b < content.len() && b > a && content[b - 1] == '\r' {
                content.subrange(a, b - 1)
            } else {
                content.subrange(a, b)
            },
        ),
        None => None,
    }
}

/// Whether the line `s[a..b]` is real.
fn is_real_range(s: &[char], a: usize, b: usize) -> (r: bool)
    requires
        a <= b <= s@.len(),
    ensures
        r == is_real_line(s@.subrange(a as int, b as int)),
{
    let mut k: usize = a;
    while k < b && is_white_exec(s[k])
        invariant
            a <= k <= b <= s@.len(),
            forall|j: int| a <= j < k ==> is_white(#[trigger] s@[j]),
        decreases b - k,
    {
        k += 1;
    }
    proof {
        let u = s@.subrange(a as int, b as int);
        assert forall|j: int| 0 <= j < k - a implies is_white(#[trigger] u[j]) by {
            assert(u[j] == s@[a + j]);
        }
        lemma_trim_start_len(u);
        let t = trim_start(u);
        assert(t == u.skip(u.len() - t.len()));
        lemma_trim_start_skip_exact(u, k - a);
        if k < b {
            assert(u.skip(k - a)[0] == s@[k as int]);
        }
    }
    k < b && s[k] != '#'
}

proof fn lemma_trim_start_skip_exact(u: Seq<char>, n: int)
    requires
        0 <= n <= u.len(),
        forall|j: int| 0 <= j < n ==> is_white(#[trigger] u[j]),
        n < u.len() ==> !is_white(u[n]),
    ensures
        trim_start(u) == u.skip(n),
    decreases n,
{
    if n > 0 {
        lemma_trim_start_skip_exact(u.drop_first(), n - 1);
        assert(u.drop_first().skip(n - 1) =~= u.skip(n));
    } else {
        assert(u.skip(0) =~= u);
    }
}

/// The range of the first real line of `s`.
fn first_real_range(s: &[char]) -> (r: Option<(usize, usize)>)
    ensures
        r matches Some((a, b)) ==> a <= b <= s@.len() && first_real_from(s@, 0) == Some(
            (a as int, b as int),
        ),
        r is None ==> first_real_from(s@, 0) is None,
{
    let mut from: usize = 0;
    loop
        invariant
            from <= s@.len(),
            first_real_from(s@, 0) == first_real_from(s@, from as int),
        decreases s.len() - from,
    {
        let e = line_end_exec(s, from);
        proof {
            lemma_line_end_bounds(s@, from as int);
        }
        if is_real_range(s, from, e) {
            return Some((from, e));
        }
        if e >= s.len() {
            return None;
        }
        from = e + 1;
    }
}

/// The template with `{ticket}` and `{message}` substituted.
fn format_with_exec(fmt: &[char], ticket: &[char], message: &[char]) -> (v: Vec<char>)
    ensures
        v@ == format_with(fmt@, ticket@, message@),
{
    let t: [char; 8] = ['{', 't', 'i', 'c', 'k', 'e', 't', '}'];
    let m: [char; 9] = ['{', 'm', 'e', 's', 's', 'a', 'g', 'e', '}'];
    assert(t@ =~= seq!['{', 't', 'i', 'c', 'k', 'e', 't', '}']);
    assert(m@ =~= seq!['{', 'm', 'e', 's', 's', 'a', 'g', 'e', '}']);
    let first = replace_all_chars(fmt, t.as_slice(), ticket);
    replace_all_chars(first.as_slice(), m.as_slice(), message)
}

/// Puts the ticket in front of the first real line of `content` through the
/// template `prefix_format` (`{ticket}` and `{message}` are substituted); the other
/// lines are kept as they are. Without a real line, a new first line is added.
pub fn apply_prefix(content: &str, prefix_format: &str, ticket: &str) -> (out: String)
    ensures
        out@ == prefixed_content(content@, prefix_format@, ticket@),
{
    let cs = chars_of(content);
    let fmt = chars_of(prefix_format);
    let tk = chars_of(ticket);
    match first_real_range(cs.as_slice()) {
        Some((a, b)) => {
            let msg = slice_chars(cs.as_slice(), a, b);
            let line = format_with_exec(fmt.as_slice(), tk.as_slice(), msg.as_slice());
            let head = slice_chars(cs.as_slice(), 0, a);
            let tail = slice_chars(cs.as_slice(), b, cs.len());
            let v1 = concat_chars(head.as_slice(), line.as_slice());
            let v = concat_chars(v1.as_slice(), tail.as_slice());
            assert(head@ =~= content@.take(a as int));
            assert(tail@ =~= content@.skip(b as int));
            string_of(v.as_slice())
        },
        None => {
            let empty: [char; 0] = [];
            assert(empty@ =~= Seq::<char>::empty());
            let line = format_with_exec(fmt.as_slice(), tk.as_slice(), empty.as_slice());
            if cs.len() == 0 {
                string_of(line.as_slice())
            } else {
                let nl: [char; 1] = ['\n'];
                assert(nl@ =~= seq!['\n']);
                let v1 = concat_chars(line.as_slice(), nl.as_slice());
                let v = concat_chars(v1.as_slice(), cs.as_slice());
                string_of(v.as_slice())
            }
        },
    }
}

/// The first real line of `content`, if it has one.
pub fn first_real_line(content: &str) -> (r: Option<String>)
    ensures
        r matches Some(l) ==> first_real_line_of(content@) == Some(l@),
        r is None ==> first_real_line_of(content@) is None,
{
    let cs = chars_of(content);
    match first_real_range(cs.as_slice()) {
        Some((a, b)) => {
            let end = if b < cs.len() && b > a && cs[b - 1] == '\r' {
                b - 1
            } else {
                b
            };
            let v = slice_chars(cs.as_slice(), a, end);
            Some(string_of(v.as_slice()))
        },
        None => None,
    }
}

/// Commits whose message git builds itself (merges and squashes) are left alone.
pub open spec fn skipped_source(source: Seq<char>) -> bool {
    source == "merge"@ || source == "squash"@
}

/// Whether the hook leaves a commit of this source alone.
pub fn is_skipped_source(source: &str) -> (r: bool)
    ensures
        r == skipped_source(source@),
{
    str_eq(source, "merge") || str_eq(source, "squash")
}

/// What the hook does to a commit message on a branch with a ticket: an invalid
/// pattern is refused; a message whose first real line already starts with a word
/// that the pattern matches (this ticket or another) is left alone (`Ok(None)`);
/// otherwise the prefixed message is returned.
pub fn prefixed_message(original: &str, pattern: &str, prefix_format: &str, ticket: &str) -> (r:
    Result<Option<String>, TicketError>)
    ensures
        r is Err <==> !regex_compiles(pattern@),
        r is Err ==> r matches Err(TicketError::InvalidPattern { .. }),
        r matches Err(TicketError::InvalidPattern { pattern: p }) ==> p@ == pattern@,
        (r matches Ok(None)) <==> (regex_compiles(pattern@) && match first_real_line_of(original@) {
            Some(l) => prefix_ticket(l, pattern@) is Some,
            None => false,
        }),
        r matches Ok(Some(m)) ==> m@ == prefixed_content(original@, prefix_format@, ticket@),
{
    if regex_match(pattern, "").is_none() {
        return Err(TicketError::InvalidPattern { pattern: pattern.to_owned() });
    }
    if let Some(line) = first_real_line(original) {
        if extract_prefix(line.as_str(), pattern).is_some() {
            return Ok(None);
        }
    }
    Ok(Some(apply_prefix(original, prefix_format, ticket)))
}

/// The commit-message file named by the hook's arguments, and the commit's source
/// (empty when git gives none).
pub fn hook_args(args: &Vec<String>) -> (r: Option<(String, String)>)
    ensures
        r is None <==> args@.len() == 0,
        r matches Some((path, source)) ==> path@ == args@[0]@ && source@ == (if args@.len() > 1 {
            args@[1]@
        } else {
            Seq::empty()
        }),
{
    if args.len() == 0 {
        return None;
    }
    let path = args[0].clone();
    let source = if args.len() > 1 {
        args[1].clone()
    } else {
        String::new()
    };
    Some((path, source))
}


/// The template with `{ticket}` and `{message}` substituted, for one line.
pub fn format_line(prefix_format: &str, ticket: &str, message: &str) -> (line: String)
    ensures
        line@ == format_with(prefix_format@, ticket@, message@),
{
    let fmt = chars_of(prefix_format);
    let tk = chars_of(ticket);
    let msg = chars_of(message);
    let v = format_with_exec(fmt.as_slice(), tk.as_slice(), msg.as_slice());
    string_of(v.as_slice())
}

} // verus!
