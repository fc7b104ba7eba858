//! `tix config`: the key schema, how values and their layers are shown, and the
//! edits `tix config set` makes to a config file.

use vstd::prelude::*;

use crate::config::{field_name, field_named, schema, schema_fields, Config, ConfigField, FieldValue, Source};
use crate::commands::doctor::{opt_view, str_opt};
use crate::commands::init::{join_path, path_join};
use crate::text::{
    debug_quote, debug_text, decimal, join, join_strings, parse_u32, parsed_u32, split_char, split_from, str_eq,
    strings_view, u64_to_decimal, pairs_view,
};
use crate::toml_doc::{
    collect_entries, flat_entries,
    copy_value, dotted_set, get_dotted, get_path, items_model, items_well_formed, law_get_after_set,
    law_set_path_same, law_set_path_twice, law_set_path_well_formed, lemma_get_path_wf, lemma_items_model,
    lemma_items_wf, set_dotted, set_path,
    well_formed, TomlValue,
    TomlView,
};

verus! {

/// How a layer is named to the user.
pub open spec fn source_name(s: Source) -> Seq<char> {
    match s {
        Source::Default => "default"@,
        Source::Global => "global"@,
        Source::Repo => "repo"@,
    }
}

/// How an optional layer is named to the user (`?` when unknown).
pub open spec fn source_label(s: Option<Source>) -> Seq<char> {
    match s {
        Some(s) => source_name(s),
        None => "?"@,
    }
}

/// The name of a layer: `default`, `global` or `repo`.
pub fn format_source(s: Source) -> (r: &'static str)
    ensures
        r@ == source_name(s),
{
    match s {
        Source::Default => "default",
        Source::Global => "global",
        Source::Repo => "repo",
    }
}


/// The type of the values a key takes.
#[derive(Debug, Clone, Copy, PartialEq, Eq, Structural)]
pub enum KeyType {
    String,
    U32,
    StringList,
}

/// Which layers `tix config list` shows.
#[derive(Debug, Clone, Copy, PartialEq, Eq, Structural)]
pub enum ListScope {
    /// Every key, resolved, with the layer that set it.
    All,
    /// The global file as written.
    Global,
    /// The repo file as written.
    Repo,
}

/// The type of the values of the key `f`.
pub open spec fn key_kind(f: ConfigField) -> KeyType {
    match f {
        ConfigField::BranchesProtected => KeyType::StringList,
        ConfigField::PushStaleWarnThreshold => KeyType::U32,
        _ => KeyType::String,
    }
}

/// The type of the values of the key `f`.
pub fn key_type(f: ConfigField) -> (k: KeyType)
    ensures
        k == key_kind(f),
{
    match f {
        ConfigField::BranchesProtected => KeyType::StringList,
        ConfigField::PushStaleWarnThreshold => KeyType::U32,
        _ => KeyType::String,
    }
}

/// The names of all keys, in schema order.
pub open spec fn schema_names() -> Seq<Seq<char>> {
    schema_fields().map_values(|f: ConfigField| field_name(f))
}

/// The names of all keys, comma-separated.
pub open spec fn known_keys_text() -> Seq<char> {
    join(schema_names(), ", "@)
}

/// The names of all keys, comma-separated, in schema order.
pub fn known_keys() -> (s: String)
    ensures
        s@ == known_keys_text(),
{
    let fields = schema();
    let mut names: Vec<String> = Vec::new();
    let mut i: usize = 0;
    while i < fields.len()
        invariant
            fields@ == schema_fields(),
            i <= fields@.len(),
            names@.len() == i,
            forall|j: int| 0 <= j < i ==> (#[trigger] names@[j])@ == field_name(fields@[j]),
        decreases fields@.len() - i,
    {
        let n = fields[i].name();
        names.push(n.to_owned());
        i += 1;
    }
    assert(strings_view(names@) =~= schema_names());
    join_strings(&names, ", ")
}

/// The error for a key outside the schema.
pub open spec fn unknown_key_text(key: Seq<char>) -> Seq<char> {
    "unknown key `"@ + key + "`; known keys: "@ + known_keys_text()
}

/// The type of the key named `key`, or the error naming the known keys.
pub fn lookup(key: &str) -> (r: Result<KeyType, String>)
    ensures
        match field_named(key@) {
            Some(f) => (r matches Ok(k) && k == key_kind(f)),
            None => (r matches Err(e) && e@ == unknown_key_text(key@)),
        },
{
    match ConfigField::from_name(key) {
        Some(f) => Ok(key_type(f)),
        None => {
            let mut e = "unknown key `".to_owned();
            e.append(key);
            e.append("`; known keys: ");
            let k = known_keys();
            e.append(k.as_str());
            Err(e)
        },
    }
}

/// A list as `tix config` shows it: `[` and `]` round the entries, each quoted as
/// `{:?}` does, separated by `, `.
pub open spec fn list_text(l: Seq<Seq<char>>) -> Seq<char> {
    "["@ + join(l.map_values(|s: Seq<char>| debug_text(s)), ", "@) + "]"@
}

/// How a resolved value is shown: text quoted, lists as `list_text`, counts in
/// decimal.
pub open spec fn shown_value(v: FieldValue) -> Seq<char> {
    match v {
        FieldValue::Text(s) => debug_text(s),
        FieldValue::List(l) => list_text(l),
        FieldValue::Count(n) => decimal(n as nat),
    }
}

/// How the value of the key named `key` is shown (`?` for an unknown key).
pub open spec fn display_text(c: Config, key: Seq<char>) -> Seq<char> {
    match field_named(key) {
        Some(f) => shown_value(c.value_of(f)),
        None => "?"@,
    }
}

/// Shows a list of strings as `tix config` does.
pub fn format_string_list(list: &Vec<String>) -> (r: String)
    ensures
        r@ == list_text(strings_view(list@)),
{
    let mut parts: Vec<String> = Vec::new();
    let mut i: usize = 0;
    while i < list.len()
        invariant
            i <= list@.len(),
            parts@.len() == i,
            forall|j: int| 0 <= j < i ==> (#[trigger] parts@[j])@ == debug_text(list@[j]@),
        decreases list@.len() - i,
    {
        parts.push(debug_quote(list[i].as_str()));
        i += 1;
    }
    assert(strings_view(parts@) =~= strings_view(list@).map_values(|s: Seq<char>| debug_text(s)));
    let inner = join_strings(&parts, ", ");
    let mut r = "[".to_owned();
    r.append(inner.as_str());
    r.append("]");
    r
}

/// Shows the resolved value of the key named `key`.
pub fn display_value(cfg: &Config, key: &str) -> (r: String)
    ensures
        r@ == display_text(*cfg, key@),
{
    match ConfigField::from_name(key) {
        Some(f) => match f {
            ConfigField::TicketPattern => debug_quote(cfg.ticket.pattern.as_str()),
            ConfigField::TicketPrefixFormat => debug_quote(cfg.ticket.prefix_format.as_str()),
            ConfigField::BranchesProtected => format_string_list(&cfg.branches.protected),
            ConfigField::BranchesDefaultBase => debug_quote(cfg.branches.default_base.as_str()),
            ConfigField::BranchesStartPrefix => debug_quote(cfg.branches.start_prefix.as_str()),
            ConfigField::BranchesNamingPattern => debug_quote(cfg.branches.naming_pattern.as_str()),
            ConfigField::BranchesNamingEnforcement => debug_quote(cfg.branches.naming_enforcement.as_str()),
            ConfigField::PushStaleWarnThreshold => u64_to_decimal(cfg.push.stale_warn_threshold as u64),
            ConfigField::IntegrationsTicketUrlTemplate => debug_quote(cfg.integrations.ticket_url_template.as_str()),
            ConfigField::IntegrationsPrProvider => debug_quote(cfg.integrations.pr_provider.as_str()),
            ConfigField::IntegrationsPrCommand => debug_quote(cfg.integrations.pr_command.as_str()),
        },
        None => "?".to_owned(),
    }
}

/// The line `tix config get` and `tix config list` print for the key named `key`:
/// its value and the layer that set it.
pub open spec fn value_line(c: Config, key: Seq<char>) -> Seq<char> {
    key + " = "@ + display_text(c, key) + "  ("@ + source_label(
        match field_named(key) {
            Some(f) => Some(c.field_source(f)),
            None => None,
        },
    ) + ")"@
}

/// The line shown for the key named `key`.
pub fn value_line_of(cfg: &Config, key: &str) -> (r: String)
    ensures
        r@ == value_line(*cfg, key@),
{
    let mut r = key.to_owned();
    r.append(" = ");
    let v = display_value(cfg, key);
    r.append(v.as_str());
    r.append("  (");
    let label = match cfg.source(key) {
        Some(s) => format_source(s),
        None => "?",
    };
    r.append(label);
    r.append(")");
    r
}

/// The lines `tix config list` prints for the resolved configuration: one per key,
/// in schema order.
pub fn resolved_lines(cfg: &Config) -> (lines: Vec<String>)
    ensures
        strings_view(lines@) == schema_names().map_values(|k: Seq<char>| value_line(*cfg, k)),
{
    let fields = schema();
    let mut lines: Vec<String> = Vec::new();
    let mut i: usize = 0;
    while i < fields.len()
        invariant
            fields@ == schema_fields(),
            i <= fields@.len(),
            lines@.len() == i,
            forall|j: int| 0 <= j < i ==> (#[trigger] lines@[j])@ == value_line(*cfg, field_name(fields@[j])),
        decreases fields@.len() - i,
    {
        let n = fields[i].name();
        lines.push(value_line_of(cfg, n));
        i += 1;
    }
    assert(strings_view(lines@) =~= schema_names().map_values(|k: Seq<char>| value_line(*cfg, k)));
    lines
}


/// A dotted key always has at least one part.
pub proof fn lemma_split_nonempty(s: Seq<char>, c: char)
    ensures
        split_char(s, c).len() >= 1,
{
    reveal_with_fuel(split_from, 1);
}

/// What setting the key `key` of type `kind` to the text `value` does to the
/// document: a string is stored as it is, a count must parse as a `u32`, and a list
/// cannot be set this way.
pub open spec fn scalar_outcome(doc: TomlView, key: Seq<char>, kind: KeyType, value: Seq<char>) -> Result<TomlView, Seq<char>> {
    match kind {
        KeyType::String => dotted_set(doc, key, TomlView::Str(value)),
        KeyType::U32 => match parsed_u32(value) {
            Some(n) => dotted_set(doc, key, TomlView::Int(n as i64)),
            None => Err("expected integer for `"@ + key + "`, got "@ + debug_text(value)),
        },
        KeyType::StringList => Err(
            "`"@ + key + "` is a list \u{2014} use --append <V> or --remove <V>, not a scalar value"@,
        ),
    }
}

/// Sets the key `key`, of type `kind`, to the text `value`.
pub fn set_scalar(doc: &mut TomlValue, key: &str, kind: KeyType, value: &str) -> (r: Result<(), String>)
    ensures
        match scalar_outcome(old(doc).model(), key@, kind, value@) {
            Ok(d) => r is Ok && final(doc).model() == d,
            Err(e) => (r matches Err(m) && m@ == e) && *final(doc) == *old(doc),
        },
        well_formed(old(doc).model()) ==> well_formed(final(doc).model()),
{
    proof {
        if well_formed(doc.model()) {
            lemma_scalar_outcome_wf(doc.model(), key@, kind, value@);
        }
    }
    match kind {
        KeyType::String => set_dotted(doc, key, TomlValue::String(value.to_owned())),
        KeyType::U32 => match parse_u32(value) {
            Some(n) => set_dotted(doc, key, TomlValue::Integer(n as i64)),
            None => {
                let mut e = "expected integer for `".to_owned();
                e.append(key);
                e.append("`, got ");
                let q = debug_quote(value);
                e.append(q.as_str());
                Err(e)
            },
        },
        KeyType::StringList => {
            let mut e = "`".to_owned();
            e.append(key);
            e.append("` is a list \u{2014} use --append <V> or --remove <V>, not a scalar value");
            Err(e)
        },
    }
}

/// Whether `v` is the string `s`.
fn is_string(v: &TomlValue, s: &str) -> (r: bool)
    ensures
        r == (v.model() == TomlView::Str(s@)),
{
    match v {
        TomlValue::String(x) => str_eq(x.as_str(), s),
        _ => false,
    }
}

/// Whether the array `items` holds the string `s`.
fn has_string(items: &Vec<TomlValue>, s: &str) -> (r: bool)
    ensures
        r == items_model(items@).contains(TomlView::Str(s@)),
{
    proof {
        lemma_items_model(items@);
    }
    let mut i: usize = 0;
    while i < items.len()
        invariant
            i <= items@.len(),
            items_model(items@).len() == items@.len(),
            forall|j: int| 0 <= j < items@.len() ==> #[trigger] items_model(items@)[j] == items@[j].model(),
            forall|j: int| 0 <= j < i ==> items_model(items@)[j] != TomlView::Str(s@),
        decreases items@.len() - i,
    {
        if is_string(&items[i], s) {
            assert(items_model(items@)[i as int] == TomlView::Str(s@));
            return true;
        }
        i += 1;
    }
    false
}

/// A copy of `items`.
fn copy_items(items: &Vec<TomlValue>) -> (r: Vec<TomlValue>)
    ensures
        items_model(r@) == items_model(items@),
{
    let mut out: Vec<TomlValue> = Vec::new();
    let mut i: usize = 0;
    while i < items.len()
        invariant
            i <= items@.len(),
            out@.len() == i,
            forall|j: int| 0 <= j < i ==> (#[trigger] out@[j]).model() == items@[j].model(),
        decreases items@.len() - i,
    {
        out.push(copy_value(&items[i]));
        i += 1;
    }
    proof {
        lemma_items_model(out@);
        lemma_items_model(items@);
    }
    assert(items_model(out@) =~= items_model(items@));
    out
}

/// What `tix config set --append` does: the key must be a list key; the value is
/// added at the end of the list unless it is there already; a missing list is made
/// with the value alone; a value of another kind at the key is an error.
pub open spec fn append_outcome(doc: TomlView, key: Seq<char>, kind: KeyType, value: Seq<char>) -> Result<TomlView, Seq<char>> {
    if kind != KeyType::StringList {
        Err("`"@ + key + "` is not a list \u{2014} use a scalar value"@)
    } else {
        match get_path(doc, split_char(key, '.')) {
            Some(TomlView::Arr(items)) => if items.contains(TomlView::Str(value)) {
                Ok(doc)
            } else {
                dotted_set(doc, key, TomlView::Arr(items.push(TomlView::Str(value))))
            },
            Some(_) => Err("`"@ + key + "` exists but is not a list"@),
            None => dotted_set(doc, key, TomlView::Arr(seq![TomlView::Str(value)])),
        }
    }
}

/// Adds `value` to the list at `key`.
pub fn list_append(doc: &mut TomlValue, key: &str, kind: KeyType, value: String) -> (r: Result<(), String>)
    ensures
        match append_outcome(old(doc).model(), key@, kind, value@) {
            Ok(d) => r is Ok && final(doc).model() == d,
            Err(e) => (r matches Err(m) && m@ == e) && *final(doc) == *old(doc),
        },
        well_formed(old(doc).model()) ==> well_formed(final(doc).model()),
{
    proof {
        if well_formed(doc.model()) {
            lemma_append_outcome_wf(doc.model(), key@, kind, value@);
        }
    }
    if kind != KeyType::StringList {
        let mut e = "`".to_owned();
        e.append(key);
        e.append("` is not a list \u{2014} use a scalar value");
        return Err(e);
    }
    let ghost vs = value@;
    let new_items = match get_dotted(doc, key) {
        Some(TomlValue::Array(items)) => {
            if has_string(items, value.as_str()) {
                return Ok(());
            }
            let mut v = copy_items(items);
            let ghost before = v@;
            v.push(TomlValue::String(value));
            proof {
                lemma_items_model(v@);
                lemma_items_model(before);
                assert(items_model(v@) =~= items_model(before).push(TomlView::Str(vs)));
            }
            v
        },
        Some(_) => {
            let mut e = "`".to_owned();
            e.append(key);
            e.append("` exists but is not a list");
            return Err(e);
        },
        None => {
            let v = vec![TomlValue::String(value)];
            proof {
                lemma_items_model(v@);
                assert(items_model(v@) =~= seq![TomlView::Str(vs)]);
            }
            v
        },
    };
    set_dotted(doc, key, TomlValue::Array(new_items))
}

/// The warning `tix config set --remove` gives for a value the list did not hold.
pub open spec fn not_in_list_text(value: Seq<char>, key: Seq<char>) -> Seq<char> {
    "warning: "@ + debug_text(value) + " was not in `"@ + key + "`"@
}

/// The entries of a list other than the string `value`.
pub open spec fn without_string(items: Seq<TomlView>, value: Seq<char>) -> Seq<TomlView> {
    items.filter(|x: TomlView| x != TomlView::Str(value))
}

/// What `tix config set --remove` does: the key must be a list key; when a list is
/// at the key, every entry equal to the value leaves it, and the warning is due
/// when none did; otherwise the document is left as it is.
pub open spec fn remove_outcome(doc: TomlView, key: Seq<char>, kind: KeyType, value: Seq<char>) -> Result<(TomlView, bool), Seq<char>> {
    if kind != KeyType::StringList {
        Err("`"@ + key + "` is not a list"@)
    } else {
        match get_path(doc, split_char(key, '.')) {
            Some(TomlView::Arr(items)) => Ok(
                (
                    set_path(doc, split_char(key, '.'), TomlView::Arr(without_string(items, value))),
                    !items.contains(TomlView::Str(value)),
                ),
            ),
            _ => Ok((doc, false)),
        }
    }
}

/// Removes `value` from the list at `key`; gives the warning to show when the list
/// did not hold it.
pub fn list_remove(doc: &mut TomlValue, key: &str, kind: KeyType, value: String) -> (r: Result<Option<String>, String>)
    ensures
        match remove_outcome(old(doc).model(), key@, kind, value@) {
            Ok((d, warn)) => (r matches Ok(w) && final(doc).model() == d && opt_view(w) == (if warn {
                Some(not_in_list_text(value@, key@))
            } else {
                None
            })),
            Err(e) => (r matches Err(m) && m@ == e) && *final(doc) == *old(doc),
        },
        well_formed(old(doc).model()) ==> well_formed(final(doc).model()),
{
    proof {
        if well_formed(doc.model()) {
            lemma_remove_outcome_wf(doc.model(), key@, kind, value@);
        }
    }
    if kind != KeyType::StringList {
        let mut e = "`".to_owned();
        e.append(key);
        e.append("` is not a list");
        return Err(e);
    }
    let (kept, missing) = match get_dotted(doc, key) {
        Some(TomlValue::Array(items)) => {
            let ghost im = items_model(items@);
            let mut out: Vec<TomlValue> = Vec::new();
            let mut i: usize = 0;
            proof {
                lemma_items_model(items@);
            }
            while i < items.len()
                invariant
                    i <= items@.len(),
                    im == items_model(items@),
                    im.len() == items@.len(),
                    forall|j: int| 0 <= j < items@.len() ==> #[trigger] im[j] == items@[j].model(),
                    items_model(out@) == without_string(im.take(i as int), value@),
                decreases items@.len() - i,
            {
                assert(im.take(i + 1) =~= im.take(i as int).push(im[i as int]));
                proof {
                    reveal_with_fuel(Seq::filter, 1);
                }
                assert(im.take(i + 1).drop_last() =~= im.take(i as int));
                if !is_string(&items[i], value.as_str()) {
                    let ghost before = out@;
                    out.push(copy_value(&items[i]));
                    proof {
                        lemma_items_model(out@);
                        lemma_items_model(before);
                        assert(items_model(out@) =~= items_model(before).push(im[i as int]));
                    }
                }
                i += 1;
            }
            assert(im.take(items@.len() as int) =~= im);
            let present = has_string(items, value.as_str());
            (Some(out), !present)
        },
        _ => (None, false),
    };
    match kept {
        Some(out) => {
            proof {
                lemma_split_nonempty(key@, '.');
            }
            let written = set_dotted(doc, key, TomlValue::Array(out));
            assert(written is Ok);
            if missing {
                let mut w = "warning: ".to_owned();
                let q = debug_quote(value.as_str());
                w.append(q.as_str());
                w.append(" was not in `");
                w.append(key);
                w.append("`");
                Ok(Some(w))
            } else {
                Ok(None)
            }
        },
        None => Ok(None),
    }
}

/// What `tix config set` does to a config file: exactly one of a value, `--append`
/// and `--remove` must be given, and it is applied as `scalar_outcome`,
/// `append_outcome` or `remove_outcome` says; the result carries the warning to
/// show, if any.
pub open spec fn edit_outcome(
    doc: TomlView,
    key: Seq<char>,
    kind: KeyType,
    value: Option<Seq<char>>,
    append: Option<Seq<char>>,
    remove: Option<Seq<char>>,
) -> Result<(TomlView, Option<Seq<char>>), Seq<char>> {
    match (value, append, remove) {
        (Some(v), None, None) => match scalar_outcome(doc, key, kind, v) {
            Ok(d) => Ok((d, None)),
            Err(e) => Err(e),
        },
        (None, Some(v), None) => match append_outcome(doc, key, kind, v) {
            Ok(d) => Ok((d, None)),
            Err(e) => Err(e),
        },
        (None, None, Some(v)) => match remove_outcome(doc, key, kind, v) {
            Ok((d, warn)) => Ok(
                (
                    d,
                    if warn {
                        Some(not_in_list_text(v, key))
                    } else {
                        None
                    },
                ),
            ),
            Err(e) => Err(e),
        },
        (None, None, None) => Err("provide a VALUE, --append <V>, or --remove <V>"@),
        _ => Err("VALUE, --append, and --remove are mutually exclusive"@),
    }
}

/// Applies `tix config set`'s edit to the document; gives the warning to show, if
/// any.
pub fn edit_config(
    doc: &mut TomlValue,
    key: &str,
    kind: KeyType,
    value: Option<String>,
    append: Option<String>,
    remove: Option<String>,
) -> (r: Result<Option<String>, String>)
    ensures
        match edit_outcome(old(doc).model(), key@, kind, opt_view(value), opt_view(append), opt_view(remove)) {
            Ok((d, w)) => (r matches Ok(x) && opt_view(x) == w && final(doc).model() == d),
            Err(e) => (r matches Err(m) && m@ == e) && *final(doc) == *old(doc),
        },
        well_formed(old(doc).model()) ==> well_formed(final(doc).model()),
{
    match (value, append, remove) {
        (Some(v), None, None) => match set_scalar(doc, key, kind, v.as_str()) {
            Ok(()) => Ok(None),
            Err(e) => Err(e),
        },
        (None, Some(v), None) => match list_append(doc, key, kind, v) {
            Ok(()) => Ok(None),
            Err(e) => Err(e),
        },
        (None, None, Some(v)) => list_remove(doc, key, kind, v),
        (None, None, None) => Err("provide a VALUE, --append <V>, or --remove <V>".to_owned()),
        _ => Err("VALUE, --append, and --remove are mutually exclusive".to_owned()),
    }
}


impl ListScope {
    /// The scope the flags of `tix config list` ask for: `--global`, else
    /// `--repo`, else every key resolved.
    pub fn from_flags(global: bool, repo: bool) -> (s: ListScope)
        ensures
            s == (if global {
                ListScope::Global
            } else if repo {
                ListScope::Repo
            } else {
                ListScope::All
            }),
    {
        if global {
            ListScope::Global
        } else if repo {
            ListScope::Repo
        } else {
            ListScope::All
        }
    }
}

/// The file `tix config set` writes: the repo's `.tix.toml` with `--repo`, the
/// global `config.toml` otherwise.
pub open spec fn config_target(repo: bool, repo_root: Option<Seq<char>>, config_dir: Option<Seq<char>>) -> Result<Seq<char>, Seq<char>> {
    if repo {
        match repo_root {
            Some(r) => Ok(path_join(r, ".tix.toml"@)),
            None => Err("--repo requires being inside a git repo"@),
        }
    } else {
        match config_dir {
            Some(d) => Ok(path_join(d, "config.toml"@)),
            None => Err("could not resolve config dir; set $HOME or $XDG_CONFIG_HOME"@),
        }
    }
}

/// Without `--repo`, `tix config set` writes the global `config.toml` in the config
/// directory, wherever it runs; with `--repo` it writes the repository's
/// `.tix.toml`, whatever the config directory.
pub proof fn law_config_target_scope(
    root: Option<Seq<char>>,
    dir: Option<Seq<char>>,
    other_root: Option<Seq<char>>,
    other_dir: Option<Seq<char>>,
)
    ensures
        config_target(false, root, dir) == config_target(false, other_root, dir),
        dir matches Some(d) ==> config_target(false, root, dir) == Ok::<Seq<char>, Seq<char>>(
            path_join(d, "config.toml"@),
        ),
        config_target(true, root, dir) == config_target(true, root, other_dir),
        root matches Some(r) ==> config_target(true, root, dir) == Ok::<Seq<char>, Seq<char>>(
            path_join(r, ".tix.toml"@),
        ),
{
}

/// The file to write, from the repo root (when inside a repo) and the config
/// directory (when it could be resolved).
pub fn config_path(repo: bool, repo_root: Option<&str>, config_dir: Option<&str>) -> (r: Result<String, String>)
    ensures
        match config_target(repo, str_opt(repo_root), str_opt(config_dir)) {
            Ok(p) => r matches Ok(x) && x@ == p,
            Err(e) => r matches Err(m) && m@ == e,
        },
        !repo && config_dir is Some ==> (r matches Ok(x) && x@ == path_join(config_dir->0@, "config.toml"@)),
        repo && repo_root is Some ==> (r matches Ok(x) && x@ == path_join(repo_root->0@, ".tix.toml"@)),
{
    proof {
        law_config_target_scope(str_opt(repo_root), str_opt(config_dir), None, None);
    }
    if repo {
        match repo_root {
            Some(root) => Ok(join_path(root, ".tix.toml")),
            None => Err("--repo requires being inside a git repo".to_owned()),
        }
    } else {
        match config_dir {
            Some(d) => Ok(join_path(d, "config.toml")),
            None => Err("could not resolve config dir; set $HOME or $XDG_CONFIG_HOME".to_owned()),
        }
    }
}

/// The lines `tix config list --global` / `--repo` print for one file: a note when
/// it is absent or holds nothing, else `key = value` for every value that is not a
/// table.
pub open spec fn file_lines(label: Seq<char>, path: Seq<char>, doc: Option<TomlView>) -> Seq<Seq<char>> {
    match doc {
        None => seq!["(no "@ + label + " config: "@ + path + ")"@],
        Some(d) => {
            let es = flat_entries(d, Seq::empty());
            if es.len() == 0 {
                seq!["(empty "@ + label + " config: "@ + path + ")"@]
            } else {
                es.map_values(|e: (Seq<char>, Seq<char>)| e.0 + " = "@ + e.1)
            }
        },
    }
}

/// The lines shown for the file at `path`, given its document (`None` when the
/// file is absent).
pub fn file_listing(label: &str, path: &str, doc: Option<&TomlValue>) -> (lines: Vec<String>)
    ensures
        strings_view(lines@) == file_lines(
            label@,
            path@,
            match doc {
                Some(d) => Some(d.model()),
                None => None,
            },
        ),
{
    match doc {
        None => {
            let mut l = "(no ".to_owned();
            l.append(label);
            l.append(" config: ");
            l.append(path);
            l.append(")");
            let v = vec![l];
            assert(strings_view(v@) =~= file_lines(label@, path@, None));
            v
        },
        Some(d) => {
            let mut entries: Vec<(String, String)> = Vec::new();
            collect_entries(d, "", &mut entries);
            assert(pairs_view(entries@) =~= flat_entries(d.model(), ""@));
            assert(""@ =~= Seq::<char>::empty()) by {
                reveal_strlit("");
            }
            if entries.len() == 0 {
                let mut l = "(empty ".to_owned();
                l.append(label);
                l.append(" config: ");
                l.append(path);
                l.append(")");
                let v = vec![l];
                assert(strings_view(v@) =~= file_lines(label@, path@, Some(d.model())));
                v
            } else {
                let mut lines: Vec<String> = Vec::new();
                let mut i: usize = 0;
                while i < entries.len()
                    invariant
                        i <= entries@.len(),
                        lines@.len() == i,
                        forall|j: int| 0 <= j < i ==> (#[trigger] lines@[j])@ == entries@[j].0@ + " = "@ + entries@[j].1@,
                    decreases entries@.len() - i,
                {
                    let mut l = entries[i].0.clone();
                    l.append(" = ");
                    l.append(entries[i].1.as_str());
                    lines.push(l);
                    i += 1;
                }
                assert(strings_view(lines@) =~= file_lines(label@, path@, Some(d.model())));
                lines
            }
        },
    }
}


/// Reading a dotted key just set gives the value set.
pub proof fn law_set_then_get(doc: TomlView, key: Seq<char>, value: TomlView)
    requires
        dotted_set(doc, key, value) is Ok,
    ensures
        get_path(dotted_set(doc, key, value)->Ok_0, split_char(key, '.')) == Some(value),
{
    lemma_split_nonempty(key, '.');
    law_get_after_set(doc, split_char(key, '.'), value);
}

/// `tix config set KEY VALUE` on a string key, then reading the key, gives the
/// value.
pub proof fn law_scalar_then_get(doc: TomlView, key: Seq<char>, value: Seq<char>)
    requires
        scalar_outcome(doc, key, KeyType::String, value) is Ok,
    ensures
        get_path(scalar_outcome(doc, key, KeyType::String, value)->Ok_0, split_char(key, '.')) == Some(
            TomlView::Str(value),
        ),
{
    law_set_then_get(doc, key, TomlView::Str(value));
}

/// `--append` is idempotent: appending a value a second time changes nothing, and
/// after it the list holds the value.
pub proof fn law_append_idempotent(doc: TomlView, key: Seq<char>, kind: KeyType, value: Seq<char>)
    requires
        append_outcome(doc, key, kind, value) is Ok,
    ensures
        append_outcome(append_outcome(doc, key, kind, value)->Ok_0, key, kind, value) == append_outcome(
            doc,
            key,
            kind,
            value,
        ),
        get_path(append_outcome(doc, key, kind, value)->Ok_0, split_char(key, '.')) matches Some(
            TomlView::Arr(items),
        ) && items.contains(TomlView::Str(value)),
{
    let parts = split_char(key, '.');
    lemma_split_nonempty(key, '.');
    let sv = TomlView::Str(value);
    match get_path(doc, parts) {
        Some(TomlView::Arr(items)) => {
            if !items.contains(sv) {
                let pushed = items.push(sv);
                law_set_then_get(doc, key, TomlView::Arr(pushed));
                assert(pushed[pushed.len() - 1] == sv);
                assert(pushed.contains(sv));
            }
        },
        Some(_) => {},
        None => {
            let single = seq![sv];
            law_set_then_get(doc, key, TomlView::Arr(single));
            assert(single[0] == sv);
            assert(single.contains(sv));
        },
    }
}

/// After `--remove`, the list at the key does not hold the value.
pub proof fn law_remove_then_absent(doc: TomlView, key: Seq<char>, value: Seq<char>)
    requires
        get_path(doc, split_char(key, '.')) matches Some(TomlView::Arr(_)),
    ensures
        remove_outcome(doc, key, KeyType::StringList, value) matches Ok((d, _)) && get_path(
            d,
            split_char(key, '.'),
        ) matches Some(TomlView::Arr(items)) && !items.contains(TomlView::Str(value)),
{
    let parts = split_char(key, '.');
    lemma_split_nonempty(key, '.');
    let items = get_path(doc, parts)->Some_0->Arr_0;
    let kept = without_string(items, value);
    assert(doc is Tab);
    law_get_after_set(doc, parts, TomlView::Arr(kept));
    let pred = |x: TomlView| x != TomlView::Str(value);
    assert forall|i: int| 0 <= i < kept.len() implies kept[i] != TomlView::Str(value) by {
        items.lemma_filter_pred(pred, i);
    }
}


/// `--remove` undoes an `--append` of a value the list did not hold: the list comes
/// back as it was, with its other entries in their order, and no warning is due.
pub proof fn law_remove_undoes_append(doc: TomlView, key: Seq<char>, value: Seq<char>)
    requires
        get_path(doc, split_char(key, '.')) matches Some(TomlView::Arr(items)) && !items.contains(
            TomlView::Str(value),
        ),
    ensures
        append_outcome(doc, key, KeyType::StringList, value) matches Ok(d) && remove_outcome(
            d,
            key,
            KeyType::StringList,
            value,
        ) == Ok::<(TomlView, bool), Seq<char>>((doc, false)),
{
    let parts = split_char(key, '.');
    lemma_split_nonempty(key, '.');
    let items = get_path(doc, parts)->Some_0->Arr_0;
    let sv = TomlView::Str(value);
    let pushed = items.push(sv);
    assert(doc is Tab);
    let d = set_path(doc, parts, TomlView::Arr(pushed));
    law_get_after_set(doc, parts, TomlView::Arr(pushed));
    assert(pushed[pushed.len() - 1] == sv);
    assert(pushed.contains(sv));
    lemma_without_pushed(items, value);
    lemma_without_absent(items, value);
    law_set_path_twice(doc, parts, TomlView::Arr(pushed), TomlView::Arr(items));
    law_set_path_same(doc, parts, TomlView::Arr(items));
}

proof fn lemma_without_pushed(items: Seq<TomlView>, value: Seq<char>)
    ensures
        without_string(items.push(TomlView::Str(value)), value) == without_string(items, value),
{
    reveal_with_fuel(Seq::filter, 1);
    assert(items.push(TomlView::Str(value)).drop_last() =~= items);
}

proof fn lemma_without_absent(items: Seq<TomlView>, value: Seq<char>)
    requires
        !items.contains(TomlView::Str(value)),
    ensures
        without_string(items, value) == items,
    decreases items.len(),
{
    reveal_with_fuel(Seq::filter, 1);
    if items.len() > 0 {
        assert(!items.drop_last().contains(TomlView::Str(value))) by {
            if items.drop_last().contains(TomlView::Str(value)) {
                let k = choose|k: int| 0 <= k < items.drop_last().len() && items.drop_last()[k] == TomlView::Str(value);
                assert(items[k] == TomlView::Str(value));
            }
        }
        lemma_without_absent(items.drop_last(), value);
        assert(items[items.len() - 1] != TomlView::Str(value));
        assert(items.drop_last().push(items.last()) =~= items);
    } else {
        assert(without_string(items, value) =~= items);
    }
}


proof fn lemma_push_wf(items: Seq<TomlView>, x: TomlView)
    requires
        items_well_formed(items),
        well_formed(x),
    ensures
        items_well_formed(items.push(x)),
{
    lemma_items_wf(items);
    lemma_items_wf(items.push(x));
    assert forall|i: int| 0 <= i < items.push(x).len() implies #[trigger] well_formed(items.push(x)[i]) by {
        if i < items.len() {
            assert(items.push(x)[i] == items[i]);
        }
    }
}

proof fn lemma_filter_wf(items: Seq<TomlView>, value: Seq<char>)
    requires
        items_well_formed(items),
    ensures
        items_well_formed(without_string(items, value)),
    decreases items.len(),
{
    reveal_with_fuel(Seq::filter, 1);
    let e = Seq::<TomlView>::empty();
    if items.len() == 0 {
        assert(without_string(items, value) =~= e);
    } else {
        lemma_items_wf(items);
        lemma_items_wf(items.drop_last());
        assert forall|i: int| 0 <= i < items.drop_last().len() implies #[trigger] well_formed(items.drop_last()[i]) by {
            assert(items.drop_last()[i] == items[i]);
        }
        lemma_filter_wf(items.drop_last(), value);
        if items.last() != TomlView::Str(value) {
            lemma_push_wf(without_string(items.drop_last(), value), items.last());
        }
    }
}

proof fn lemma_scalar_outcome_wf(doc: TomlView, key: Seq<char>, kind: KeyType, value: Seq<char>)
    requires
        well_formed(doc),
    ensures
        scalar_outcome(doc, key, kind, value) matches Ok(d) ==> well_formed(d),
{
    match kind {
        KeyType::String => law_set_path_well_formed(doc, split_char(key, '.'), TomlView::Str(value)),
        KeyType::U32 => {
            if let Some(n) = parsed_u32(value) {
                law_set_path_well_formed(doc, split_char(key, '.'), TomlView::Int(n as i64));
            }
        },
        KeyType::StringList => {},
    }
}

proof fn lemma_append_outcome_wf(doc: TomlView, key: Seq<char>, kind: KeyType, value: Seq<char>)
    requires
        well_formed(doc),
    ensures
        append_outcome(doc, key, kind, value) matches Ok(d) ==> well_formed(d),
{
    let parts = split_char(key, '.');
    let sv = TomlView::Str(value);
    match get_path(doc, parts) {
        Some(TomlView::Arr(items)) => {
            lemma_get_path_wf(doc, parts);
            lemma_push_wf(items, sv);
            law_set_path_well_formed(doc, parts, TomlView::Arr(items.push(sv)));
        },
        Some(_) => {},
        None => {
            let single = seq![sv];
            lemma_items_wf(single);
            law_set_path_well_formed(doc, parts, TomlView::Arr(single));
        },
    }
}

proof fn lemma_remove_outcome_wf(doc: TomlView, key: Seq<char>, kind: KeyType, value: Seq<char>)
    requires
        well_formed(doc),
    ensures
        remove_outcome(doc, key, kind, value) matches Ok((d, _)) ==> well_formed(d),
{
    let parts = split_char(key, '.');
    if let Some(TomlView::Arr(items)) = get_path(doc, parts) {
        lemma_get_path_wf(doc, parts);
        lemma_filter_wf(items, value);
        law_set_path_well_formed(doc, parts, TomlView::Arr(without_string(items, value)));
    }
}

} // verus!
