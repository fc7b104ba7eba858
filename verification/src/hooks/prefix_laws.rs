//! The commit-message hook is idempotent: what it writes, it leaves alone the next
//! time.

use vstd::prelude::*;

use crate::hooks::prepare_commit_msg::{first_real_from, first_real_line_of, format_with, is_real_line, prefixed_content};
use crate::regex::regex_outcome;
use crate::text::{
    contains, first_word, is_white, lemma_line_end_bounds, lemma_take_word, lemma_trim_start_len, line_end,
    occurs_at, replace_all, starts_with, take_word, trim_start, words,
};
use crate::ticket::prefix_ticket;

verus! {

/// The placeholder for the ticket in a prefix format.
pub open spec fn ticket_slot() -> Seq<char> {
    seq!['{', 't', 'i', 'c', 'k', 'e', 't', '}']
}

/// The placeholder for the message in a prefix format.
pub open spec fn message_slot() -> Seq<char> {
    seq!['{', 'm', 'e', 's', 's', 'a', 'g', 'e', '}']
}

proof fn lemma_replace_keep(a: Seq<char>, b: Seq<char>, pat: Seq<char>, rep: Seq<char>)
    requires
        pat.len() > 0,
        forall|i: int| 0 <= i < a.len() ==> !occurs_at(a + b, pat, i),
    ensures
        replace_all(a + b, pat, rep) == a + replace_all(b, pat, rep),
    decreases a.len(),
{
    if a.len() == 0 {
        assert(a + b =~= b);
        assert(a + replace_all(b, pat, rep) =~= replace_all(b, pat, rep));
    } else {
        let s = a + b;
        assert(!occurs_at(s, pat, 0));
        assert(!starts_with(s, pat)) by {
            if starts_with(s, pat) {
                assert(s.take(pat.len() as int) =~= s.subrange(0, pat.len() as int));
            }
        }
        let a2 = a.drop_first();
        assert(s.drop_first() =~= a2 + b);
        assert forall|i: int| 0 <= i < a2.len() implies !occurs_at(a2 + b, pat, i) by {
            assert(!occurs_at(s, pat, i + 1));
            if occurs_at(a2 + b, pat, i) {
                assert((a2 + b).subrange(i, i + pat.len()) =~= s.subrange(i + 1, i + 1 + pat.len()));
            }
        }
        lemma_replace_keep(a2, b, pat, rep);
        assert(seq![s[0]] + (a2 + replace_all(b, pat, rep)) =~= a + replace_all(b, pat, rep));
    }
}

proof fn lemma_replace_at_start(pat: Seq<char>, rest: Seq<char>, rep: Seq<char>)
    requires
        pat.len() > 0,
    ensures
        replace_all(pat + rest, pat, rep) == rep + replace_all(rest, pat, rep),
{
    let s = pat + rest;
    assert(s.take(pat.len() as int) =~= pat);
    assert(s.skip(pat.len() as int) =~= rest);
}

/// With the default format, the prefixed line is the ticket, a space and the line.
pub proof fn lemma_default_format(t: Seq<char>, line: Seq<char>)
    requires
        forall|i: int| 0 <= i < t.len() ==> !is_white(#[trigger] t[i]),
        !contains(t, message_slot()),
    ensures
        format_with(ticket_slot() + seq![' '] + message_slot(), t, line) == t + seq![' '] + line,
{
    let tp = ticket_slot();
    let mp = message_slot();
    let sp = seq![' '] + mp;
    assert(tp + seq![' '] + mp =~= tp + sp);
    lemma_replace_at_start(tp, sp, t);
    let e = Seq::<char>::empty();
    assert forall|i: int| 0 <= i < sp.len() implies !occurs_at(sp + e, tp, i) by {
        if occurs_at(sp + e, tp, i) {
            let w = (sp + e).subrange(i, i + 8);
            assert(w == tp);
            if i == 0 {
                assert(w[0] == ' ');
            } else if i == 1 {
                assert(w[1] == 'm');
            } else {
                assert(w[0] == (sp + e)[i]);
                assert(i == 2);
                assert(w[0] == 'm');
            }
        }
    }
    lemma_replace_keep(sp, e, tp, t);
    assert(sp + e =~= sp);
    assert(replace_all(e, tp, t) =~= e);
    assert(sp + e =~= sp);
    let first = t + sp;
    assert(replace_all(tp + sp, tp, t) == first);
    let a = t + seq![' '];
    assert(first =~= a + mp);
    assert forall|i: int| 0 <= i < a.len() implies !occurs_at(a + mp, mp, i) by {
        if occurs_at(a + mp, mp, i) {
            let w = (a + mp).subrange(i, i + 9);
            if i + 9 <= t.len() {
                assert(t.subrange(i, i + 9) =~= w);
                assert(occurs_at(t, mp, i));
            } else {
                let k = t.len() - i;
                assert(w[k] == ' ');
                assert(mp[k] != ' ');
            }
        }
    }
    lemma_replace_keep(a, mp, mp, line);
    assert(mp =~= mp + e);
    lemma_replace_at_start(mp, e, line);
    assert(line + replace_all(e, mp, line) =~= line);
}

proof fn lemma_take_word_prefix(t: Seq<char>, rest: Seq<char>)
    requires
        forall|i: int| 0 <= i < t.len() ==> !is_white(#[trigger] t[i]),
        rest.len() > 0,
        is_white(rest[0]),
    ensures
        take_word(t + rest) == t,
    decreases t.len(),
{
    if t.len() == 0 {
        assert(t + rest =~= rest);
    } else {
        let s = t + rest;
        assert(s[0] == t[0]);
        assert(s.drop_first() =~= t.drop_first() + rest);
        lemma_take_word_prefix(t.drop_first(), rest);
        assert(seq![t[0]] + t.drop_first() =~= t);
    }
}

/// The first word of a line made of a ticket, a space and more is the ticket.
pub proof fn lemma_first_word_ticket(t: Seq<char>, x: Seq<char>)
    requires
        t.len() > 0,
        forall|i: int| 0 <= i < t.len() ==> !is_white(#[trigger] t[i]),
    ensures
        first_word(t + seq![' '] + x) == Some(t),
{
    let s = t + seq![' '] + x;
    assert(s[0] == t[0]);
    assert(trim_start(s) == s);
    let rest = seq![' '] + x;
    assert(s =~= t + rest);
    lemma_take_word_prefix(t, rest);
    lemma_trim_start_len(s);
    lemma_take_word(s);
    assert(words(s)[0] == take_word(s));
}

proof fn lemma_line_end_at(s: Seq<char>, from: int, e: int)
    requires
        0 <= from <= e <= s.len(),
        forall|j: int| from <= j < e ==> s[j] != '\n',
        e < s.len() ==> s[e] == '\n',
    ensures
        line_end(s, from) == e,
    decreases e - from,
{
    if from < e {
        lemma_line_end_at(s, from + 1, e);
    }
}

proof fn lemma_first_real_bounds(s: Seq<char>, from: int)
    requires
        first_real_from(s, from) is Some,
    ensures
        from <= (first_real_from(s, from)->0).0,
        (first_real_from(s, from)->0).0 <= (first_real_from(s, from)->0).1 <= s.len(),
        line_end(s, (first_real_from(s, from)->0).0) == (first_real_from(s, from)->0).1,
        is_real_line(s.subrange((first_real_from(s, from)->0).0, (first_real_from(s, from)->0).1)),
    decreases s.len() - from,
{
    let e = line_end(s, from);
    lemma_line_end_bounds(s, from);
    if !is_real_line(s.subrange(from, e)) && e < s.len() {
        lemma_first_real_bounds(s, e + 1);
    }
}

/// The lines of `c` before its first real line at `a` are kept in `m`, so the walk
/// over the lines of `m` reaches `a` as the walk over `c` does.
proof fn lemma_walk(c: Seq<char>, m: Seq<char>, from: int, a: int, b: int, end: int)
    requires
        0 <= from <= a,
        first_real_from(c, from) == Some((a, b)),
        a <= m.len(),
        forall|j: int| 0 <= j < a ==> m[j] == c[j],
        first_real_from(m, a) == Some((a, end)),
    ensures
        first_real_from(m, from) == Some((a, end)),
    decreases a - from,
{
    if from < a {
        let e = line_end(c, from);
        lemma_line_end_bounds(c, from);
        assert(!is_real_line(c.subrange(from, e)) && e < c.len());
        lemma_first_real_bounds(c, e + 1);
        assert(e + 1 <= a);
        lemma_line_end_at(m, from, e);
        assert(m.subrange(from, e) =~= c.subrange(from, e));
        lemma_walk(c, m, e + 1, a, b, end);
    }
}

/// Facts about a new first line `l` put at `a` in front of `rest`: when `l` is real
/// and holds no newline, and `rest` is empty or starts with a newline, the walk
/// from `a` stops at it.
proof fn lemma_new_line(m: Seq<char>, a: int, l: Seq<char>)
    requires
        0 <= a,
        a + l.len() <= m.len(),
        m.subrange(a, a + l.len()) == l,
        forall|j: int| 0 <= j < l.len() ==> l[j] != '\n',
        a + l.len() < m.len() ==> m[a + l.len()] == '\n',
        is_real_line(l),
    ensures
        first_real_from(m, a) == Some((a, a + l.len())),
{
    assert forall|j: int| a <= j < a + l.len() implies m[j] != '\n' by {
        assert(m[j] == l[j - a]);
    }
    lemma_line_end_at(m, a, a + l.len());
}

/// A line that starts with a non-blank character other than `#` is real.
proof fn lemma_real_start(l: Seq<char>)
    requires
        l.len() > 0,
        !is_white(l[0]),
        l[0] != '#',
    ensures
        is_real_line(l),
{
    assert(trim_start(l) == l);
}

/// The hook is idempotent: on a message it has just prefixed with the default
/// format `{ticket} {message}`, the first real line starts with the ticket, which
/// the pattern matches, so the hook leaves that message alone. The ticket must be
/// one word that does not start with `#` and does not hold `{message}`.
pub proof fn law_prefix_idempotent(content: Seq<char>, pattern: Seq<char>, ticket: Seq<char>)
    requires
        regex_outcome(pattern, ticket) == Some(true),
        ticket.len() > 0,
        ticket[0] != '#',
        forall|i: int| 0 <= i < ticket.len() ==> !is_white(#[trigger] ticket[i]),
        !contains(ticket, message_slot()),
    ensures
        first_real_line_of(prefixed_content(content, "{ticket} {message}"@, ticket)) matches Some(l) && prefix_ticket(
            l,
            pattern,
        ) == Some(ticket),
{
    lemma_default_format_text();
    let fmt = ticket_slot() + seq![' '] + message_slot();
    let m = prefixed_content(content, fmt, ticket);
    let sp = seq![' '];
    match first_real_from(content, 0) {
        Some((a, b)) => {
            lemma_first_real_bounds(content, 0);
            lemma_line_end_bounds(content, a);
            let line = content.subrange(a, b);
            lemma_default_format(ticket, line);
            let l = ticket + sp + line;
            assert(m == content.take(a) + l + content.skip(b));
            assert(m.subrange(a, a + l.len()) =~= l);
            assert forall|j: int| 0 <= j < l.len() implies l[j] != '\n' by {
                if j < ticket.len() {
                    assert(l[j] == ticket[j]);
                    assert(!is_white(ticket[j]));
                } else if j == ticket.len() {
                    assert(l[j] == ' ');
                } else {
                    assert(l[j] == content[a + (j - ticket.len() - 1)]);
                }
            }
            if a + l.len() < m.len() {
                assert(m[a + l.len()] == content[b]);
            }
            assert(l[0] == ticket[0]);
            lemma_real_start(l);
            lemma_new_line(m, a, l);
            lemma_walk(content, m, 0, a, b, a + l.len());
            assert(is_real_line(line));
            lemma_trim_start_len(line);
            assert(line.len() > 0);
            let end = a + l.len();
            if end < m.len() && end > a && m[end - 1] == '\r' {
                let shown = m.subrange(a, end - 1);
                assert(shown =~= ticket + sp + line.drop_last());
                lemma_first_word_ticket(ticket, line.drop_last());
            } else {
                lemma_first_word_ticket(ticket, line);
            }
        },
        None => {
            let e = Seq::<char>::empty();
            lemma_default_format(ticket, e);
            let l = ticket + sp + e;
            assert(l =~= ticket + sp);
            let f = format_with(fmt, ticket, e);
            assert(f == l);
            assert forall|j: int| 0 <= j < l.len() implies l[j] != '\n' by {
                if j < ticket.len() {
                    assert(l[j] == ticket[j]);
                    assert(!is_white(ticket[j]));
                } else {
                    assert(l[j] == ' ');
                }
            }
            if content.len() == 0 {
                assert(m == l);
                assert(m.subrange(0, l.len() as int) =~= l);
            } else {
                assert(m == l + seq!['\n'] + content);
                assert(m.subrange(0, l.len() as int) =~= l);
                assert(m[l.len() as int] == '\n');
            }
            assert(l[0] == ticket[0]);
            lemma_real_start(l);
            lemma_new_line(m, 0, l);
            assert(l[l.len() - 1] == ' ');
            lemma_first_word_ticket(ticket, e);
            assert(m.subrange(0, l.len() as int) == l);
        },
    }
}

/// The default prefix format is the ticket placeholder, a space and the message
/// placeholder.
proof fn lemma_default_format_text()
    ensures
        "{ticket} {message}"@ == ticket_slot() + seq![' '] + message_slot(),
{
    reveal_strlit("{ticket} {message}");
    assert("{ticket} {message}"@ =~= ticket_slot() + seq![' '] + message_slot());
}

} // verus!
