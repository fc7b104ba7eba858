use tix_git::commands::config_cmd::{
    config_path, display_value, edit_config, file_listing, format_string_list, known_keys,
    list_append, list_remove, lookup, resolved_lines, set_scalar, value_line_of, KeyType,
    ListScope,
};
use tix_git::config::Config;
use tix_git::toml_doc::{get_dotted, parse_toml, render_toml, set_dotted, TomlValue};

const KNOWN: &str = "ticket.pattern, ticket.prefix_format, branches.protected, branches.default_base, branches.start_prefix, branches.naming_pattern, branches.naming_enforcement, push.stale_warn_threshold, integrations.ticket_url_template, integrations.pr_provider, integrations.pr_command";

fn empty_doc() -> TomlValue {
    parse_toml("").unwrap()
}

fn string_at(doc: &TomlValue, key: &str) -> Option<String> {
    match get_dotted(doc, key) {
        Some(TomlValue::String(s)) => Some(s.clone()),
        _ => None,
    }
}

fn list_at(doc: &TomlValue, key: &str) -> Option<Vec<String>> {
    match get_dotted(doc, key) {
        Some(TomlValue::Array(items)) => Some(
            items
                .iter()
                .map(|v| match v {
                    TomlValue::String(s) => s.clone(),
                    _ => "?".to_string(),
                })
                .collect(),
        ),
        _ => None,
    }
}

#[test]
fn lookup_knows_the_schema() {
    assert_eq!(lookup("ticket.pattern"), Ok(KeyType::String));
    assert_eq!(lookup("push.stale_warn_threshold"), Ok(KeyType::U32));
    assert_eq!(lookup("branches.protected"), Ok(KeyType::StringList));
    assert_eq!(
        lookup("nope"),
        Err(format!("unknown key `nope`; known keys: {KNOWN}"))
    );
    assert_eq!(known_keys(), KNOWN);
}

#[test]
fn values_are_shown_quoted_and_listed() {
    let c = Config::defaults();
    assert_eq!(display_value(&c, "ticket.pattern"), format!("{:?}", r"^[A-Z]+-\d+$"));
    assert_eq!(
        display_value(&c, "branches.protected"),
        r#"["main", "master", "develop", "release/*"]"#
    );
    assert_eq!(display_value(&c, "push.stale_warn_threshold"), "50");
    assert_eq!(display_value(&c, "nope"), "?");
    assert_eq!(format_string_list(&vec!["a".to_string(), "b\"c".to_string()]), r#"["a", "b\"c"]"#);
    assert_eq!(format_string_list(&vec![]), "[]");
}

#[test]
fn value_lines_name_the_layer() {
    let c = Config::defaults();
    assert_eq!(
        value_line_of(&c, "push.stale_warn_threshold"),
        "push.stale_warn_threshold = 50  (default)"
    );
    assert_eq!(value_line_of(&c, "nope"), "nope = ?  (?)");
    let lines = resolved_lines(&c);
    assert_eq!(lines.len(), 11);
    assert_eq!(lines[0], format!("ticket.pattern = {:?}  (default)", r"^[A-Z]+-\d+$"));
    assert_eq!(lines[10], "integrations.pr_command = \"auto\"  (default)");
}

#[test]
fn set_scalar_writes_strings_and_counts() {
    let mut doc = empty_doc();
    set_scalar(&mut doc, "branches.default_base", KeyType::String, "trunk").unwrap();
    assert_eq!(string_at(&doc, "branches.default_base").as_deref(), Some("trunk"));
    set_scalar(&mut doc, "push.stale_warn_threshold", KeyType::U32, "7").unwrap();
    assert!(matches!(get_dotted(&doc, "push.stale_warn_threshold"), Some(TomlValue::Integer(7))));
    let text = render_toml(&doc).unwrap();
    let again = parse_toml(&text).unwrap();
    assert_eq!(string_at(&again, "branches.default_base").as_deref(), Some("trunk"));
    assert!(matches!(get_dotted(&again, "push.stale_warn_threshold"), Some(TomlValue::Integer(7))));
}

#[test]
fn set_scalar_errors() {
    let mut doc = empty_doc();
    assert_eq!(
        set_scalar(&mut doc, "push.stale_warn_threshold", KeyType::U32, "abc"),
        Err("expected integer for `push.stale_warn_threshold`, got \"abc\"".to_string())
    );
    assert_eq!(
        set_scalar(&mut doc, "branches.protected", KeyType::StringList, "x"),
        Err("`branches.protected` is a list \u{2014} use --append <V> or --remove <V>, not a scalar value".to_string())
    );
    let mut not_table = TomlValue::Integer(1);
    assert_eq!(
        set_dotted(&mut not_table, "a.b", TomlValue::Integer(2)),
        Err("expected table at ``".to_string())
    );
}

#[test]
fn append_creates_then_is_idempotent() {
    let mut doc = empty_doc();
    list_append(&mut doc, "branches.protected", KeyType::StringList, "trunk".to_string()).unwrap();
    assert_eq!(list_at(&doc, "branches.protected"), Some(vec!["trunk".to_string()]));
    list_append(&mut doc, "branches.protected", KeyType::StringList, "main".to_string()).unwrap();
    list_append(&mut doc, "branches.protected", KeyType::StringList, "trunk".to_string()).unwrap();
    assert_eq!(
        list_at(&doc, "branches.protected"),
        Some(vec!["trunk".to_string(), "main".to_string()])
    );
}

#[test]
fn append_errors() {
    let mut doc = empty_doc();
    assert_eq!(
        list_append(&mut doc, "ticket.pattern", KeyType::String, "x".to_string()),
        Err("`ticket.pattern` is not a list \u{2014} use a scalar value".to_string())
    );
    let mut doc = parse_toml("[branches]\nprotected = \"main\"\n").unwrap();
    assert_eq!(
        list_append(&mut doc, "branches.protected", KeyType::StringList, "x".to_string()),
        Err("`branches.protected` exists but is not a list".to_string())
    );
}

#[test]
fn remove_drops_every_copy_and_warns_when_absent() {
    let mut doc = parse_toml("[branches]\nprotected = [\"a\", \"b\", \"a\"]\n").unwrap();
    let w = list_remove(&mut doc, "branches.protected", KeyType::StringList, "a".to_string()).unwrap();
    assert_eq!(w, None);
    assert_eq!(list_at(&doc, "branches.protected"), Some(vec!["b".to_string()]));
    let w = list_remove(&mut doc, "branches.protected", KeyType::StringList, "zzz".to_string()).unwrap();
    assert_eq!(w.as_deref(), Some("warning: \"zzz\" was not in `branches.protected`"));
    assert_eq!(
        list_remove(&mut doc, "ticket.pattern", KeyType::String, "a".to_string()),
        Err("`ticket.pattern` is not a list".to_string())
    );
    let mut missing = empty_doc();
    assert_eq!(list_remove(&mut missing, "branches.protected", KeyType::StringList, "a".to_string()), Ok(None));
}

#[test]
fn edit_config_needs_exactly_one_operation() {
    let mut doc = empty_doc();
    assert_eq!(
        edit_config(&mut doc, "ticket.pattern", KeyType::String, None, None, None),
        Err("provide a VALUE, --append <V>, or --remove <V>".to_string())
    );
    assert_eq!(
        edit_config(&mut doc, "ticket.pattern", KeyType::String, Some("a".into()), Some("b".into()), None),
        Err("VALUE, --append, and --remove are mutually exclusive".to_string())
    );
    assert_eq!(
        edit_config(&mut doc, "ticket.pattern", KeyType::String, Some("X-\\d+".into()), None, None),
        Ok(None)
    );
    assert_eq!(string_at(&doc, "ticket.pattern").as_deref(), Some("X-\\d+"));
}

#[test]
fn file_listing_shows_entries_or_notes() {
    assert_eq!(file_listing("global", "/p", None), vec!["(no global config: /p)"]);
    let empty = empty_doc();
    assert_eq!(file_listing("repo", "/r", Some(&empty)), vec!["(empty repo config: /r)"]);
    let doc = parse_toml(
        "[ticket]\npattern = \"X\"\n[push]\nstale_warn_threshold = -7\n[branches]\nprotected = [\"a\", \"b\"]\n[extra]\nflag = true\nratio = 1.5\n",
    )
    .unwrap();
    assert_eq!(
        file_listing("repo", "/r", Some(&doc)),
        vec![
            "branches.protected = [\"a\", \"b\"]",
            "extra.flag = true",
            "extra.ratio = 1.5",
            "push.stale_warn_threshold = -7",
            "ticket.pattern = \"X\"",
        ]
    );
}

#[test]
fn config_path_by_scope() {
    assert_eq!(config_path(true, Some("/r"), Some("/c")), Ok("/r/.tix.toml".to_string()));
    assert_eq!(
        config_path(true, None, Some("/c")),
        Err("--repo requires being inside a git repo".to_string())
    );
    assert_eq!(config_path(false, Some("/r"), Some("/c/tix")), Ok("/c/tix/config.toml".to_string()));
    assert_eq!(
        config_path(false, None, None),
        Err("could not resolve config dir; set $HOME or $XDG_CONFIG_HOME".to_string())
    );
    assert_eq!(ListScope::from_flags(true, false), ListScope::Global);
    assert_eq!(ListScope::from_flags(false, true), ListScope::Repo);
    assert_eq!(ListScope::from_flags(false, false), ListScope::All);
}

#[test]
fn parse_errors_are_reported() {
    assert!(parse_toml("this is = not = valid\n[[[ broken").is_err());
}

#[test]
fn tables_inside_arrays_are_shown_inline() {
    let doc = parse_toml("[[servers]]\nname = \"a\"\n").unwrap();
    let lines = file_listing("repo", "/r", Some(&doc));
    assert_eq!(lines.len(), 1);
    assert!(lines[0].starts_with("servers = [{"), "{}", lines[0]);
    assert!(lines[0].contains("name = \"a\""), "{}", lines[0]);
}

#[test]
fn values_of_other_kinds_survive_a_removal() {
    let mut doc = parse_toml("[branches]\nprotected = [\"a\", true, 2.5]\n").unwrap();
    list_remove(&mut doc, "branches.protected", KeyType::StringList, "a".to_string()).unwrap();
    let lines = file_listing("repo", "/r", Some(&doc));
    assert_eq!(lines, vec!["branches.protected = [true, 2.5]"]);
    let text = render_toml(&doc).unwrap();
    assert!(text.contains("true"), "{text}");
    assert!(text.contains("2.5"), "{text}");
}

#[test]
fn remove_undoes_an_append() {
    let text = "[branches]\nprotected = [\"main\", \"develop\"]\n";
    let mut doc = parse_toml(text).unwrap();
    let before = render_toml(&doc).unwrap();
    list_append(&mut doc, "branches.protected", KeyType::StringList, "release".to_string()).unwrap();
    assert_eq!(
        list_at(&doc, "branches.protected"),
        Some(vec!["main".to_string(), "develop".to_string(), "release".to_string()])
    );
    let w = list_remove(&mut doc, "branches.protected", KeyType::StringList, "release".to_string()).unwrap();
    assert_eq!(w, None);
    assert_eq!(
        list_at(&doc, "branches.protected"),
        Some(vec!["main".to_string(), "develop".to_string()])
    );
    assert_eq!(render_toml(&doc).unwrap(), before);
}
