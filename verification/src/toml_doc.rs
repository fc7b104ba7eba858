//! A TOML document as the configuration commands edit it: tables, arrays, strings,
//! integers and booleans are modelled; floats and datetimes are carried through as
//! the `toml` crate holds them, with the text they are shown by.
//!
//! A table is held as the list of its entries (the `toml` crate's `Table` map is
//! replaced by it); its keys are distinct, which `well_formed` states, parsing
//! gives and every edit keeps.

use vstd::prelude::*;

use crate::text::{debug_quote, debug_text, i64_to_decimal, int_text, join, join_strings, pairs_view, split_char, split_on, str_eq, strings_view};

verus! {

#[verifier::external_type_specification]
#[verifier::external_body]
pub struct ExTomlValue(toml::Value);

/// A TOML value.
#[derive(Debug)]
pub enum TomlValue {
    String(String),
    Integer(i64),
    Boolean(bool),
    Array(Vec<TomlValue>),
    /// A table: its entries, keys distinct, in the order they were read or added.
    Table(Vec<(String, TomlValue)>),
    /// A float or datetime as parsed, with the text `tix` shows it by.
    Other(toml::Value, String),
}

/// The mathematical value of a TOML value: tables are lists of named entries.
pub enum TomlView {
    Str(Seq<char>),
    Int(i64),
    Bool(bool),
    Arr(Seq<TomlView>),
    Tab(Seq<(Seq<char>, TomlView)>),
    Opaque(toml::Value, Seq<char>),
}

impl TomlValue {
    /// The mathematical value of this TOML value.
    pub open spec fn model(self) -> TomlView
        decreases self,
    {
        match self {
            TomlValue::String(s) => TomlView::Str(s@),
            TomlValue::Integer(i) => TomlView::Int(i),
            TomlValue::Boolean(b) => TomlView::Bool(b),
            TomlValue::Array(a) => TomlView::Arr(items_model(a@)),
            TomlValue::Table(t) => TomlView::Tab(entries_model(t@)),
            TomlValue::Other(o, text) => TomlView::Opaque(o, text@),
        }
    }
}

/// The mathematical values of a list of TOML values.
pub open spec fn items_model(s: Seq<TomlValue>) -> Seq<TomlView>
    decreases s,
{
    if s.len() == 0 {
        Seq::empty()
    } else {
        seq![s[0].model()] + items_model(s.drop_first())
    }
}

/// The mathematical values of the entries of a table.
pub open spec fn entries_model(s: Seq<(String, TomlValue)>) -> Seq<(Seq<char>, TomlView)>
    decreases s,
{
    if s.len() == 0 {
        Seq::empty()
    } else {
        seq![(s[0].0@, s[0].1.model())] + entries_model(s.drop_first())
    }
}

pub proof fn lemma_items_model(s: Seq<TomlValue>)
    ensures
        items_model(s).len() == s.len(),
        forall|i: int| 0 <= i < s.len() ==> #[trigger] items_model(s)[i] == s[i].model(),
    decreases s.len(),
{
    if s.len() > 0 {
        lemma_items_model(s.drop_first());
        assert forall|i: int| 0 <= i < s.len() implies #[trigger] items_model(s)[i] == s[i].model() by {
            if i > 0 {
                assert(items_model(s)[i] == items_model(s.drop_first())[i - 1]);
            }
        }
    }
}

pub proof fn lemma_entries_model(s: Seq<(String, TomlValue)>)
    ensures
        entries_model(s).len() == s.len(),
        forall|i: int| 0 <= i < s.len() ==> #[trigger] entries_model(s)[i] == (s[i].0@, s[i].1.model()),
    decreases s.len(),
{
    if s.len() > 0 {
        lemma_entries_model(s.drop_first());
        assert forall|i: int| 0 <= i < s.len() implies #[trigger] entries_model(s)[i] == (s[i].0@, s[i].1.model()) by {
            if i > 0 {
                assert(entries_model(s)[i] == entries_model(s.drop_first())[i - 1]);
            }
        }
    }
}

/// Index of the first entry of `t` at or after `from` whose key is `k`, or the
/// length of `t`.
pub open spec fn key_index(t: Seq<(Seq<char>, TomlView)>, k: Seq<char>, from: int) -> int
    decreases t.len() - from,
{
    if from < 0 || from >= t.len() {
        t.len() as int
    } else if t[from].0 == k {
        from
    } else {
        key_index(t, k, from + 1)
    }
}

pub proof fn lemma_key_index(t: Seq<(Seq<char>, TomlView)>, k: Seq<char>, from: int)
    requires
        0 <= from <= t.len(),
    ensures
        from <= key_index(t, k, from) <= t.len(),
        key_index(t, k, from) < t.len() ==> t[key_index(t, k, from)].0 == k,
        forall|j: int| from <= j < key_index(t, k, from) ==> #[trigger] t[j].0 != k,
    decreases t.len() - from,
{
    if from < t.len() && t[from].0 != k {
        lemma_key_index(t, k, from + 1);
    }
}

/// The value of the key `k` in the table `t`.
pub open spec fn table_get(t: Seq<(Seq<char>, TomlView)>, k: Seq<char>) -> Option<TomlView> {
    let i = key_index(t, k, 0);
    if i < t.len() {
        Some(t[i].1)
    } else {
        None
    }
}

/// The table `t` with the key `k` set to `v`: in place when `k` is there, at the
/// end otherwise.
pub open spec fn table_put(t: Seq<(Seq<char>, TomlView)>, k: Seq<char>, v: TomlView) -> Seq<(Seq<char>, TomlView)> {
    let i = key_index(t, k, 0);
    if i < t.len() {
        t.update(i, (k, v))
    } else {
        t.push((k, v))
    }
}

/// Index of the entry of `t` whose key is `k`, or the length of `t`.
pub fn find_key(t: &Vec<(String, TomlValue)>, k: &str) -> (i: usize)
    ensures
        i == key_index(entries_model(t@), k@, 0),
        i <= t@.len(),
{
    proof {
        lemma_entries_model(t@);
        lemma_key_index(entries_model(t@), k@, 0);
    }
    let mut i: usize = 0;
    while i < t.len()
        invariant
            i <= t@.len(),
            entries_model(t@).len() == t@.len(),
            forall|j: int| 0 <= j < t@.len() ==> #[trigger] entries_model(t@)[j] == (t@[j].0@, t@[j].1.model()),
            key_index(entries_model(t@), k@, 0) == key_index(entries_model(t@), k@, i as int),
        decreases t.len() - i,
    {
        if str_eq(t[i].0.as_str(), k) {
            assert(entries_model(t@)[i as int].0 == t@[i as int].0@);
            return i;
        }
        assert(entries_model(t@)[i as int].0 == t@[i as int].0@);
        i += 1;
    }
    i
}

/// The name of what `text.parse::<toml::Value>()` gives: the document, or the
/// parser's error message.
pub uninterp spec fn toml_document(text: Seq<char>) -> Result<TomlView, Seq<char>>;

/// The name of what `toml::to_string_pretty` writes for a document, or its error
/// message.
pub uninterp spec fn toml_pretty(doc: TomlView) -> Result<Seq<char>, Seq<char>>;

/// The name of the text `to_string` gives for a TOML value (its inline TOML form).
pub uninterp spec fn toml_display(v: TomlView) -> Seq<char>;

/// Converts a value read by the `toml` crate, one variant for one; floats and
/// datetimes keep the value and take the text `to_string` gives.
#[verifier::external_body]
fn from_outside(v: toml::Value) -> TomlValue {
    match v {
        toml::Value::String(s) => TomlValue::String(s),
        toml::Value::Integer(i) => TomlValue::Integer(i),
        toml::Value::Array(a) => TomlValue::Array(a.into_iter().map(from_outside).collect()),
        toml::Value::Table(t) => TomlValue::Table(t.into_iter().map(|(k, x)| (k, from_outside(x))).collect()),
        toml::Value::Float(f) => TomlValue::Other(toml::Value::Float(f), f.to_string()),
        toml::Value::Boolean(b) => TomlValue::Boolean(b),
        other => { let text = other.to_string(); TomlValue::Other(other, text) }
    }
}

/// Converts back to the `toml` crate's value, one variant for one.
#[verifier::external_body]
fn to_outside(v: &TomlValue) -> toml::Value {
    match v {
        TomlValue::String(s) => toml::Value::String(s.clone()),
        TomlValue::Integer(i) => toml::Value::Integer(*i),
        TomlValue::Boolean(b) => toml::Value::Boolean(*b),
        TomlValue::Array(a) => toml::Value::Array(a.iter().map(to_outside).collect()),
        TomlValue::Table(t) => toml::Value::Table(t.iter().map(|(k, x)| (k.clone(), to_outside(x))).collect()),
        TomlValue::Other(o, _) => o.clone(),
    }
}

/// Parses a TOML document with `str::parse::<toml::Value>` (the `toml` crate's
/// `from_str`). The contract names the outcome, and states that its tables have
/// distinct keys (the crate's tables are maps); what TOML accepts is the crate's.
#[verifier::external_body]
pub fn parse_toml(text: &str) -> (r: Result<TomlValue, String>)
    ensures
        match r {
            Ok(v) => toml_document(text@) == Ok::<TomlView, Seq<char>>(v.model()),
            Err(e) => toml_document(text@) == Err::<TomlView, Seq<char>>(e@),
        },
        r matches Ok(v) ==> well_formed(v.model()),
{
    match text.parse::<toml::Value>() {
        Ok(v) => Ok(from_outside(v)),
        Err(e) => Err(e.to_string()),
    }
}

/// Writes a document with `toml::to_string_pretty`. The contract names the
/// outcome; the layout is the crate's.
#[verifier::external_body]
pub fn render_toml(doc: &TomlValue) -> (r: Result<String, String>)
    ensures
        match r {
            Ok(s) => toml_pretty(doc.model()) == Ok::<Seq<char>, Seq<char>>(s@),
            Err(e) => toml_pretty(doc.model()) == Err::<Seq<char>, Seq<char>>(e@),
        },
{
    toml::to_string_pretty(&to_outside(doc)).map_err(|e| e.to_string())
}

/// The inline TOML text of a value, from `toml::Value`'s `to_string`.
#[verifier::external_body]
fn inline_text(v: &TomlValue) -> (r: String)
    ensures
        r@ == toml_display(v.model()),
{
    to_outside(v).to_string()
}

/// Copies an outside value with its `Clone`, which gives an equal value.
#[verifier::external_body]
fn clone_outside(v: &toml::Value) -> (r: toml::Value)
    ensures
        r == *v,
{
    v.clone()
}


/// The value at the path `parts`, each part naming an entry of a table.
pub open spec fn get_path(doc: TomlView, parts: Seq<Seq<char>>) -> Option<TomlView>
    decreases parts.len(),
{
    if parts.len() == 0 {
        Some(doc)
    } else {
        match doc {
            TomlView::Tab(t) => match table_get(t, parts[0]) {
                Some(c) => get_path(c, parts.drop_first()),
                None => None,
            },
            _ => None,
        }
    }
}

/// The table a path goes on into at the key `k` of `t`: the entry when it is a
/// table, a new empty table otherwise.
pub open spec fn child_table(t: Seq<(Seq<char>, TomlView)>, k: Seq<char>) -> TomlView {
    match table_get(t, k) {
        Some(TomlView::Tab(c)) => TomlView::Tab(c),
        _ => TomlView::Tab(Seq::empty()),
    }
}

/// The table `doc` with the value at the path `parts` set to `value`; the tables on
/// the way are kept when they are tables and made (empty) when they are not.
pub open spec fn set_path(doc: TomlView, parts: Seq<Seq<char>>, value: TomlView) -> TomlView
    decreases parts.len(),
{
    match doc {
        TomlView::Tab(t) => if parts.len() == 0 {
            doc
        } else if parts.len() == 1 {
            TomlView::Tab(table_put(t, parts[0], value))
        } else {
            TomlView::Tab(
                table_put(t, parts[0], set_path(child_table(t, parts[0]), parts.drop_first(), value)),
            )
        },
        _ => doc,
    }
}

/// Setting the dotted key `key` of the document `doc` to `value`: only a document
/// that is a table can be written into.
pub open spec fn dotted_set(doc: TomlView, key: Seq<char>, value: TomlView) -> Result<TomlView, Seq<char>> {
    if doc is Tab {
        Ok(set_path(doc, split_char(key, '.'), value))
    } else {
        Err("expected table at ``"@)
    }
}

proof fn lemma_put_model(t: Seq<(String, TomlValue)>, i: int, k: String, v: TomlValue)
    requires
        0 <= i < t.len(),
    ensures
        entries_model(t.update(i, (k, v))) == entries_model(t).update(i, (k@, v.model())),
{
    lemma_entries_model(t);
    lemma_entries_model(t.update(i, (k, v)));
    assert(entries_model(t.update(i, (k, v))) =~= entries_model(t).update(i, (k@, v.model())));
}

proof fn lemma_push_model(t: Seq<(String, TomlValue)>, k: String, v: TomlValue)
    ensures
        entries_model(t.push((k, v))) == entries_model(t).push((k@, v.model())),
{
    lemma_entries_model(t);
    lemma_entries_model(t.push((k, v)));
    assert(entries_model(t.push((k, v))) =~= entries_model(t).push((k@, v.model())));
}

/// Sets the entry `k` of the table `t` to `v`, where `pos` is where `k` is found.
fn put_entry(t: &mut Vec<(String, TomlValue)>, pos: usize, k: &str, v: TomlValue)
    requires
        pos == key_index(entries_model(old(t)@), k@, 0),
        pos <= old(t)@.len(),
    ensures
        entries_model(final(t)@) == table_put(entries_model(old(t)@), k@, v.model()),
{
    proof {
        lemma_entries_model(t@);
    }
    let ghost before = t@;
    if pos < t.len() {
        t.set(pos, (k.to_owned(), v));
        proof {
            lemma_put_model(before, pos as int, t@[pos as int].0, t@[pos as int].1);
        }
    } else {
        t.push((k.to_owned(), v));
        proof {
            lemma_push_model(before, t@[pos as int].0, t@[pos as int].1);
        }
    }
}

/// `doc` with the value at the path `parts[i..]` set to `value`.
fn set_path_exec(doc: TomlValue, parts: &Vec<String>, i: usize, value: TomlValue) -> (r: TomlValue)
    requires
        doc is Table,
        i < parts@.len(),
    ensures
        r.model() == set_path(doc.model(), strings_view(parts@).skip(i as int), value.model()),
    decreases parts@.len() - i,
{
    let ghost ps = strings_view(parts@).skip(i as int);
    assert(ps[0] == parts@[i as int]@);
    assert(ps.drop_first() =~= strings_view(parts@).skip(i + 1));
    match doc {
        TomlValue::Table(t) => {
            let mut t = t;
            let ghost tm = entries_model(t@);
            let k = parts[i].as_str();
            let pos = find_key(&t, k);
            proof {
                lemma_entries_model(t@);
                lemma_key_index(tm, k@, 0);
            }
            let n = parts.len();
            if i + 1 == n {
                put_entry(&mut t, pos, k, value);
                TomlValue::Table(t)
            } else {
                let found = pos < t.len();
                let child = if found {
                    let entry = t.remove(pos);
                    assert(entry.1.model() == tm[pos as int].1);
                    match entry.1 {
                        TomlValue::Table(c) => TomlValue::Table(c),
                        _ => TomlValue::Table(Vec::new()),
                    }
                } else {
                    TomlValue::Table(Vec::new())
                };
                assert(child.model() == child_table(tm, k@)) by {
                    assert(entries_model(Seq::<(String, TomlValue)>::empty()) =~= Seq::empty());
                }
                let new_child = set_path_exec(child, parts, i + 1, value);
                let ghost nm = new_child.model();
                if found {
                    t.insert(pos, (k.to_owned(), new_child));
                    proof {
                        lemma_entries_model(t@);
                        assert(entries_model(t@) =~= tm.update(pos as int, (k@, nm)));
                    }
                } else {
                    let ghost before = t@;
                    t.push((k.to_owned(), new_child));
                    proof {
                        lemma_push_model(before, t@[pos as int].0, t@[pos as int].1);
                    }
                }
                TomlValue::Table(t)
            }
        },
        _ => doc,
    }
}

/// The table `doc` with the value at the path `parts` set to `value`.
pub(crate) fn set_path_at(doc: TomlValue, parts: &Vec<String>, value: TomlValue) -> (r: TomlValue)
    requires
        doc is Table,
        parts@.len() >= 1,
    ensures
        r.model() == set_path(doc.model(), strings_view(parts@), value.model()),
{
    assert(strings_view(parts@).skip(0) =~= strings_view(parts@));
    set_path_exec(doc, parts, 0, value)
}

/// Sets the dotted key `key` (cut at each `.`) of the document to `value`, making
/// the tables on the way; fails, leaving the document as it was, when the document
/// is not a table.
pub fn set_dotted(doc: &mut TomlValue, key: &str, value: TomlValue) -> (r: Result<(), String>)
    ensures
        match dotted_set(old(doc).model(), key@, value.model()) {
            Ok(d) => r is Ok && final(doc).model() == d,
            Err(e) => (r matches Err(m) && m@ == e) && *final(doc) == *old(doc),
        },
        well_formed(old(doc).model()) && well_formed(value.model()) ==> well_formed(final(doc).model()),
{
    let ghost d0 = doc.model();
    let ghost vm = value.model();
    match doc {
        TomlValue::Table(_) => {},
        _ => {
            return Err("expected table at ``".to_owned());
        },
    }
    let parts = split_on(key, '.');
    assert(strings_view(parts@).skip(0) =~= strings_view(parts@));
    let mut d = TomlValue::Table(Vec::new());
    std::mem::swap(&mut d, doc);
    let nd = set_path_exec(d, &parts, 0, value);
    proof {
        if well_formed(d0) && well_formed(vm) {
            law_set_path_well_formed(d0, split_char(key@, '.'), vm);
        }
    }
    *doc = nd;
    Ok(())
}


/// The value at the path `parts[i..]` of `doc`.
fn get_path_exec<'a>(doc: &'a TomlValue, parts: &Vec<String>, i: usize) -> (r: Option<&'a TomlValue>)
    requires
        i <= parts@.len(),
    ensures
        match r {
            Some(v) => get_path(doc.model(), strings_view(parts@).skip(i as int)) == Some(v.model()),
            None => get_path(doc.model(), strings_view(parts@).skip(i as int)) is None,
        },
    decreases parts@.len() - i,
{
    let ghost ps = strings_view(parts@).skip(i as int);
    if i == parts.len() {
        return Some(doc);
    }
    assert(ps[0] == parts@[i as int]@);
    assert(ps.drop_first() =~= strings_view(parts@).skip(i + 1));
    match doc {
        TomlValue::Table(t) => {
            let pos = find_key(t, parts[i].as_str());
            proof {
                lemma_entries_model(t@);
                lemma_key_index(entries_model(t@), parts@[i as int]@, 0);
            }
            if pos < t.len() {
                get_path_exec(&t[pos].1, parts, i + 1)
            } else {
                None
            }
        },
        _ => None,
    }
}

/// The value at the dotted key `key` (cut at each `.`) of the document, if every
/// part names an entry of a table.
pub fn get_dotted<'a>(doc: &'a TomlValue, key: &str) -> (r: Option<&'a TomlValue>)
    ensures
        match r {
            Some(v) => get_path(doc.model(), split_char(key@, '.')) == Some(v.model()),
            None => get_path(doc.model(), split_char(key@, '.')) is None,
        },
{
    let parts = split_on(key, '.');
    assert(strings_view(parts@).skip(0) =~= strings_view(parts@));
    get_path_exec(doc, &parts, 0)
}

/// A copy of `v`, with the same mathematical value.
pub fn copy_value(v: &TomlValue) -> (r: TomlValue)
    ensures
        r.model() == v.model(),
    decreases v,
{
    match v {
        TomlValue::String(s) => TomlValue::String(s.clone()),
        TomlValue::Integer(i) => TomlValue::Integer(*i),
        TomlValue::Boolean(b) => TomlValue::Boolean(*b),
        TomlValue::Array(a) => {
            let mut out: Vec<TomlValue> = Vec::new();
            let mut i: usize = 0;
            while i < a.len()
                invariant
                    i <= a@.len(),
                    *v == TomlValue::Array(*a),
                    out@.len() == i,
                    forall|j: int| 0 <= j < i ==> (#[trigger] out@[j]).model() == a@[j].model(),
                decreases a@.len() - i,
            {
                assert(decreases_to!(*v => (*v)->Array_0));
                assert(decreases_to!(*a => a@));
                assert(decreases_to!(a@ => a@[i as int]));
                assert(decreases_to!(*v => a@[i as int]));
                out.push(copy_value(&a[i]));
                i += 1;
            }
            proof {
                lemma_items_model(out@);
                lemma_items_model(a@);
                assert(items_model(out@) =~= items_model(a@));
            }
            TomlValue::Array(out)
        },
        TomlValue::Table(t) => {
            let mut out: Vec<(String, TomlValue)> = Vec::new();
            let mut i: usize = 0;
            while i < t.len()
                invariant
                    i <= t@.len(),
                    *v == TomlValue::Table(*t),
                    out@.len() == i,
                    forall|j: int| 0 <= j < i ==> (#[trigger] out@[j]).0@ == t@[j].0@ && out@[j].1.model() == t@[j].1.model(),
                decreases t@.len() - i,
            {
                assert(decreases_to!(*v => (*v)->Table_0));
                assert(decreases_to!(*t => t@));
                assert(decreases_to!(t@ => t@[i as int]));
                assert(decreases_to!(t@[i as int] => t@[i as int].1));
                assert(decreases_to!(*v => t@[i as int].1));
                let c = copy_value(&t[i].1);
                out.push((t[i].0.clone(), c));
                i += 1;
            }
            proof {
                lemma_entries_model(out@);
                lemma_entries_model(t@);
                assert(entries_model(out@) =~= entries_model(t@));
            }
            TomlValue::Table(out)
        },
        TomlValue::Other(o, text) => TomlValue::Other(clone_outside(o), text.clone()),
    }
}


/// How `tix config list` shows a value: strings quoted as `{:?}` does, integers in
/// decimal, booleans as `true`/`false`, arrays as `[a, b]`, tables in their inline
/// TOML form, and floats and datetimes by their `to_string` text.
pub open spec fn value_text(v: TomlView) -> Seq<char>
    decreases v,
{
    match v {
        TomlView::Str(s) => debug_text(s),
        TomlView::Int(i) => int_text(i as int),
        TomlView::Bool(b) => if b {
            "true"@
        } else {
            "false"@
        },
        TomlView::Arr(items) => "["@ + join(items_text(items), ", "@) + "]"@,
        TomlView::Tab(_) => toml_display(v),
        TomlView::Opaque(_, text) => text,
    }
}

/// How each of `items` is shown.
pub open spec fn items_text(items: Seq<TomlView>) -> Seq<Seq<char>>
    decreases items,
{
    if items.len() == 0 {
        Seq::empty()
    } else {
        seq![value_text(items[0])] + items_text(items.drop_first())
    }
}

proof fn lemma_items_text(items: Seq<TomlView>)
    ensures
        items_text(items).len() == items.len(),
        forall|i: int| 0 <= i < items.len() ==> #[trigger] items_text(items)[i] == value_text(items[i]),
    decreases items.len(),
{
    if items.len() > 0 {
        lemma_items_text(items.drop_first());
        assert forall|i: int| 0 <= i < items.len() implies #[trigger] items_text(items)[i] == value_text(items[i]) by {
            if i > 0 {
                assert(items_text(items)[i] == items_text(items.drop_first())[i - 1]);
            }
        }
    }
}

/// Shows a value the way `tix config list` does.
pub fn format_toml_value(v: &TomlValue) -> (r: String)
    ensures
        r@ == value_text(v.model()),
    decreases v,
{
    match v {
        TomlValue::String(s) => debug_quote(s.as_str()),
        TomlValue::Integer(i) => i64_to_decimal(*i),
        TomlValue::Boolean(b) => if *b {
            "true".to_owned()
        } else {
            "false".to_owned()
        },
        TomlValue::Array(a) => {
            let mut parts: Vec<String> = Vec::new();
            let mut i: usize = 0;
            while i < a.len()
                invariant
                    i <= a@.len(),
                    *v == TomlValue::Array(*a),
                    parts@.len() == i,
                    forall|j: int| 0 <= j < i ==> (#[trigger] parts@[j])@ == value_text(a@[j].model()),
                decreases a@.len() - i,
            {
                assert(decreases_to!(*v => (*v)->Array_0));
                assert(decreases_to!(*a => a@));
                assert(decreases_to!(a@ => a@[i as int]));
                parts.push(format_toml_value(&a[i]));
                i += 1;
            }
            proof {
                lemma_items_model(a@);
                lemma_items_text(items_model(a@));
                assert(strings_view(parts@) =~= items_text(items_model(a@)));
            }
            let inner = join_strings(&parts, ", ");
            let mut r = "[".to_owned();
            r.append(inner.as_str());
            r.append("]");
            r
        },
        TomlValue::Table(_) => inline_text(v),
        TomlValue::Other(_, text) => text.clone(),
    }
}

/// The key under which an entry `k` of a table at `prefix` is listed.
pub open spec fn entry_key(prefix: Seq<char>, k: Seq<char>) -> Seq<char> {
    if prefix.len() == 0 {
        k
    } else {
        prefix + "."@ + k
    }
}

/// The entries `tix config list` shows for a file: every value that is not a
/// table, under its dotted key, in the order the tables hold them.
pub open spec fn flat_entries(v: TomlView, prefix: Seq<char>) -> Seq<(Seq<char>, Seq<char>)>
    decreases v, 0int,
{
    match v {
        TomlView::Tab(t) => flat_table(t, prefix),
        _ => Seq::empty(),
    }
}

/// The entries shown for the table entries `t` at `prefix`.
pub open spec fn flat_table(t: Seq<(Seq<char>, TomlView)>, prefix: Seq<char>) -> Seq<(Seq<char>, Seq<char>)>
    decreases t, 1int,
{
    if t.len() == 0 {
        Seq::empty()
    } else {
        let key = entry_key(prefix, t[0].0);
        let here = if t[0].1 is Tab {
            flat_entries(t[0].1, key)
        } else {
            seq![(key, value_text(t[0].1))]
        };
        here + flat_table(t.drop_first(), prefix)
    }
}


/// Appends to `out` the entries `tix config list` shows for `v` at `prefix`.
pub fn collect_entries(v: &TomlValue, prefix: &str, out: &mut Vec<(String, String)>)
    ensures
        pairs_view(final(out)@) == pairs_view(old(out)@) + flat_entries(v.model(), prefix@),
    decreases v,
{
    let ghost start = pairs_view(out@);
    match v {
        TomlValue::Table(t) => {
            let ghost tm = entries_model(t@);
            proof {
                lemma_entries_model(t@);
                assert(tm.skip(0) =~= tm);
                assert(start + flat_table(tm, prefix@) =~= start + flat_table(tm.skip(0), prefix@));
            }
            let mut i: usize = 0;
            while i < t.len()
                invariant
                    i <= t@.len(),
                    *v == TomlValue::Table(*t),
                    tm == entries_model(t@),
                    tm.len() == t@.len(),
                    forall|j: int| 0 <= j < t@.len() ==> #[trigger] tm[j] == (t@[j].0@, t@[j].1.model()),
                    pairs_view(out@) + flat_table(tm.skip(i as int), prefix@) == start + flat_table(tm, prefix@),
                decreases t@.len() - i,
            {
                let ghost before = pairs_view(out@);
                assert(tm.skip(i as int)[0] == tm[i as int]);
                assert(tm.skip(i as int).drop_first() =~= tm.skip(i + 1));
                let k = &t[i].0;
                let key = if prefix.unicode_len() == 0 {
                    k.clone()
                } else {
                    let mut key = prefix.to_owned();
                    key.append(".");
                    key.append(k.as_str());
                    key
                };
                assert(key@ == entry_key(prefix@, tm[i as int].0));
                let val = &t[i].1;
                match val {
                    TomlValue::Table(_) => {
                        assert(decreases_to!(*v => (*v)->Table_0));
                        assert(decreases_to!(*t => t@));
                        assert(decreases_to!(t@ => t@[i as int]));
                        assert(decreases_to!(t@[i as int] => t@[i as int].1));
                        collect_entries(val, key.as_str(), out);
                        assert(pairs_view(out@) + flat_table(tm.skip(i + 1), prefix@) =~= before + flat_table(tm.skip(i as int), prefix@));
                    },
                    _ => {
                        let text = format_toml_value(val);
                        out.push((key, text));
                        assert(pairs_view(out@) =~= before.push((entry_key(prefix@, tm[i as int].0), value_text(tm[i as int].1))));
                        assert(pairs_view(out@) + flat_table(tm.skip(i + 1), prefix@) =~= before + flat_table(tm.skip(i as int), prefix@));
                    },
                }
                i += 1;
            }
            assert(tm.skip(i as int) =~= Seq::<(Seq<char>, TomlView)>::empty());
            assert(pairs_view(out@) =~= start + flat_table(tm, prefix@));
        },
        _ => {
            assert(pairs_view(out@) =~= start + flat_entries(v.model(), prefix@));
        },
    }
}


proof fn lemma_key_index_update(t: Seq<(Seq<char>, TomlView)>, k: Seq<char>, v: TomlView, from: int)
    requires
        0 <= from <= key_index(t, k, 0),
        key_index(t, k, 0) < t.len(),
        key_index(t, k, from) == key_index(t, k, 0),
    ensures
        key_index(t.update(key_index(t, k, 0), (k, v)), k, from) == key_index(t, k, 0),
    decreases key_index(t, k, 0) - from,
{
    let i = key_index(t, k, 0);
    lemma_key_index(t, k, 0);
    if from < i {
        assert(t[from].0 != k);
        assert(t.update(i, (k, v))[from] == t[from]);
        lemma_key_index_update(t, k, v, from + 1);
    }
}

proof fn lemma_key_index_push(t: Seq<(Seq<char>, TomlView)>, k: Seq<char>, v: TomlView, from: int)
    requires
        0 <= from <= t.len(),
        key_index(t, k, 0) == t.len(),
    ensures
        key_index(t.push((k, v)), k, from) == t.len(),
    decreases t.len() - from,
{
    lemma_key_index(t, k, 0);
    if from < t.len() {
        assert(t[from].0 != k);
        assert(t.push((k, v))[from] == t[from]);
        lemma_key_index_push(t, k, v, from + 1);
    }
}

/// Reading a key of a table just written gives the value written.
pub proof fn law_table_get_after_put(t: Seq<(Seq<char>, TomlView)>, k: Seq<char>, v: TomlView)
    ensures
        table_get(table_put(t, k, v), k) == Some(v),
{
    lemma_key_index(t, k, 0);
    if key_index(t, k, 0) < t.len() {
        lemma_key_index_update(t, k, v, 0);
    } else {
        lemma_key_index_push(t, k, v, 0);
    }
}

/// Reading a path of a document just written gives the value written.
pub proof fn law_get_after_set(doc: TomlView, parts: Seq<Seq<char>>, value: TomlView)
    requires
        doc is Tab,
        parts.len() >= 1,
    ensures
        get_path(set_path(doc, parts, value), parts) == Some(value),
    decreases parts.len(),
{
    let t = doc->Tab_0;
    if parts.len() == 1 {
        law_table_get_after_put(t, parts[0], value);
        let t2 = table_put(t, parts[0], value);
        assert(set_path(doc, parts, value) == TomlView::Tab(t2));
        assert(get_path(value, parts.drop_first()) == Some(value));
        assert(get_path(TomlView::Tab(t2), parts) == get_path(value, parts.drop_first()));
    } else {
        let child = child_table(t, parts[0]);
        let inner = set_path(child, parts.drop_first(), value);
        law_get_after_set(child, parts.drop_first(), value);
        law_table_get_after_put(t, parts[0], inner);
        let t2 = table_put(t, parts[0], inner);
        assert(set_path(doc, parts, value) == TomlView::Tab(t2));
        assert(get_path(TomlView::Tab(t2), parts) == get_path(inner, parts.drop_first()));
    }
}


/// The keys of the table entries `t` are distinct.
pub open spec fn distinct_keys(t: Seq<(Seq<char>, TomlView)>) -> bool {
    forall|i: int, j: int| 0 <= i < j < t.len() ==> #[trigger] t[i].0 != #[trigger] t[j].0
}

/// Every table in `v`, at any depth, has distinct keys (as the `toml` crate's
/// tables, which are maps, always do).
pub open spec fn well_formed(v: TomlView) -> bool
    decreases v, 0int,
{
    match v {
        TomlView::Tab(t) => distinct_keys(t) && entries_well_formed(t),
        TomlView::Arr(items) => items_well_formed(items),
        _ => true,
    }
}

/// Every value among the table entries `t` is well formed.
pub open spec fn entries_well_formed(t: Seq<(Seq<char>, TomlView)>) -> bool
    decreases t, 1int,
{
    if t.len() == 0 {
        true
    } else {
        well_formed(t[0].1) && entries_well_formed(t.drop_first())
    }
}

/// Every value among `items` is well formed.
pub open spec fn items_well_formed(items: Seq<TomlView>) -> bool
    decreases items, 1int,
{
    if items.len() == 0 {
        true
    } else {
        well_formed(items[0]) && items_well_formed(items.drop_first())
    }
}

pub proof fn lemma_entries_wf(t: Seq<(Seq<char>, TomlView)>)
    ensures
        entries_well_formed(t) == forall|i: int| 0 <= i < t.len() ==> #[trigger] well_formed(t[i].1),
    decreases t.len(),
{
    if t.len() > 0 {
        lemma_entries_wf(t.drop_first());
        if entries_well_formed(t) {
            assert forall|i: int| 0 <= i < t.len() implies #[trigger] well_formed(t[i].1) by {
                if i > 0 {
                    assert(t[i] == t.drop_first()[i - 1]);
                }
            }
        }
        if forall|i: int| 0 <= i < t.len() ==> #[trigger] well_formed(t[i].1) {
            assert forall|i: int| 0 <= i < t.drop_first().len() implies #[trigger] well_formed(t.drop_first()[i].1) by {
                assert(t.drop_first()[i] == t[i + 1]);
            }
            assert(well_formed(t[0].1));
        }
    }
}

pub proof fn lemma_items_wf(items: Seq<TomlView>)
    ensures
        items_well_formed(items) == forall|i: int| 0 <= i < items.len() ==> #[trigger] well_formed(items[i]),
    decreases items.len(),
{
    if items.len() > 0 {
        lemma_items_wf(items.drop_first());
        if items_well_formed(items) {
            assert forall|i: int| 0 <= i < items.len() implies #[trigger] well_formed(items[i]) by {
                if i > 0 {
                    assert(items[i] == items.drop_first()[i - 1]);
                }
            }
        }
        if forall|i: int| 0 <= i < items.len() ==> #[trigger] well_formed(items[i]) {
            assert forall|i: int| 0 <= i < items.drop_first().len() implies #[trigger] well_formed(items.drop_first()[i]) by {
                assert(items.drop_first()[i] == items[i + 1]);
            }
            assert(well_formed(items[0]));
        }
    }
}

proof fn lemma_table_put_wf(t: Seq<(Seq<char>, TomlView)>, k: Seq<char>, v: TomlView)
    requires
        distinct_keys(t),
        entries_well_formed(t),
        well_formed(v),
    ensures
        distinct_keys(table_put(t, k, v)),
        entries_well_formed(table_put(t, k, v)),
{
    lemma_key_index(t, k, 0);
    lemma_entries_wf(t);
    let r = table_put(t, k, v);
    let i = key_index(t, k, 0);
    if i < t.len() {
        assert forall|a: int, b: int| 0 <= a < b < r.len() implies #[trigger] r[a].0 != #[trigger] r[b].0 by {
            assert(r[a].0 == t[a].0);
            assert(r[b].0 == t[b].0);
        }
        assert forall|a: int| 0 <= a < r.len() implies #[trigger] well_formed(r[a].1) by {
            if a != i {
                assert(r[a] == t[a]);
            }
        }
    } else {
        assert forall|a: int, b: int| 0 <= a < b < r.len() implies #[trigger] r[a].0 != #[trigger] r[b].0 by {
            if b == t.len() {
                assert(r[a] == t[a]);
                assert(t[a].0 != k);
            } else {
                assert(r[a] == t[a]);
                assert(r[b] == t[b]);
            }
        }
        assert forall|a: int| 0 <= a < r.len() implies #[trigger] well_formed(r[a].1) by {
            if a < t.len() {
                assert(r[a] == t[a]);
            }
        }
    }
    lemma_entries_wf(r);
}

proof fn lemma_child_table_wf(t: Seq<(Seq<char>, TomlView)>, k: Seq<char>)
    requires
        entries_well_formed(t),
    ensures
        well_formed(child_table(t, k)),
        child_table(t, k) is Tab,
{
    lemma_key_index(t, k, 0);
    lemma_entries_wf(t);
    let i = key_index(t, k, 0);
    if i < t.len() {
        assert(well_formed(t[i].1));
    }
    let e = Seq::<(Seq<char>, TomlView)>::empty();
    assert(distinct_keys(e));
    assert(entries_well_formed(e));
}

/// Writing a well-formed value at a path of a well-formed document gives a
/// well-formed document: tables keep distinct keys.
pub proof fn law_set_path_well_formed(doc: TomlView, parts: Seq<Seq<char>>, value: TomlView)
    requires
        well_formed(doc),
        well_formed(value),
    ensures
        well_formed(set_path(doc, parts, value)),
    decreases parts.len(),
{
    if let TomlView::Tab(t) = doc {
        if parts.len() == 1 {
            lemma_table_put_wf(t, parts[0], value);
        } else if parts.len() > 1 {
            let child = child_table(t, parts[0]);
            lemma_child_table_wf(t, parts[0]);
            law_set_path_well_formed(child, parts.drop_first(), value);
            lemma_table_put_wf(t, parts[0], set_path(child, parts.drop_first(), value));
        }
    }
}

/// What a path of a well-formed document holds is well formed.
pub proof fn lemma_get_path_wf(doc: TomlView, parts: Seq<Seq<char>>)
    requires
        well_formed(doc),
        get_path(doc, parts) is Some,
    ensures
        well_formed(get_path(doc, parts)->0),
    decreases parts.len(),
{
    if parts.len() > 0 {
        if let TomlView::Tab(t) = doc {
            lemma_key_index(t, parts[0], 0);
            lemma_entries_wf(t);
            let i = key_index(t, parts[0], 0);
            assert(well_formed(t[i].1));
            lemma_get_path_wf(t[i].1, parts.drop_first());
        }
    }
}


proof fn lemma_table_put_twice(t: Seq<(Seq<char>, TomlView)>, k: Seq<char>, v1: TomlView, v2: TomlView)
    ensures
        table_put(table_put(t, k, v1), k, v2) == table_put(t, k, v2),
{
    lemma_key_index(t, k, 0);
    let i = key_index(t, k, 0);
    if i < t.len() {
        lemma_key_index_update(t, k, v1, 0);
        assert(t.update(i, (k, v1)).update(i, (k, v2)) =~= t.update(i, (k, v2)));
    } else {
        lemma_key_index_push(t, k, v1, 0);
        assert(t.push((k, v1)).update(t.len() as int, (k, v2)) =~= t.push((k, v2)));
    }
}

proof fn lemma_set_path_tab(doc: TomlView, parts: Seq<Seq<char>>, value: TomlView)
    requires
        doc is Tab,
    ensures
        set_path(doc, parts, value) is Tab,
{
}

/// Writing a path twice is the same as writing it once with the second value.
pub proof fn law_set_path_twice(doc: TomlView, parts: Seq<Seq<char>>, x: TomlView, y: TomlView)
    requires
        doc is Tab,
        parts.len() >= 1,
    ensures
        set_path(set_path(doc, parts, x), parts, y) == set_path(doc, parts, y),
    decreases parts.len(),
{
    let t = doc->Tab_0;
    let k = parts[0];
    if parts.len() == 1 {
        lemma_table_put_twice(t, k, x, y);
    } else {
        let rest = parts.drop_first();
        let child = child_table(t, k);
        let inner = set_path(child, rest, x);
        let t1 = table_put(t, k, inner);
        law_table_get_after_put(t, k, inner);
        lemma_set_path_tab(child, rest, x);
        assert(child_table(t1, k) == inner);
        law_set_path_twice(child, rest, x, y);
        lemma_table_put_twice(t, k, inner, set_path(child, rest, y));
    }
}

/// Writing at a path the value it already holds leaves the document as it was.
pub proof fn law_set_path_same(doc: TomlView, parts: Seq<Seq<char>>, x: TomlView)
    requires
        parts.len() >= 1,
        get_path(doc, parts) == Some(x),
    ensures
        set_path(doc, parts, x) == doc,
    decreases parts.len(),
{
    let t = doc->Tab_0;
    let k = parts[0];
    lemma_key_index(t, k, 0);
    let i = key_index(t, k, 0);
    let c = t[i].1;
    let rest = parts.drop_first();
    if parts.len() == 1 {
        assert(get_path(c, rest) == Some(c));
        assert(t.update(i, (k, x)) =~= t);
    } else {
        assert(c is Tab);
        assert(child_table(t, k) == c);
        law_set_path_same(c, rest, x);
        assert(t.update(i, (k, c)) =~= t);
    }
}

} // verus!
