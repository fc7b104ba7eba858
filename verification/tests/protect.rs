use tix_git::commands::protect::{protect, resolved_list, set_protected_list, target_path, unprotect};
use tix_git::toml_doc::{get_dotted, parse_toml, TomlValue};

fn strings(v: &[&str]) -> Vec<String> {
    v.iter().map(|s| s.to_string()).collect()
}

#[test]
fn protect_appends_once() {
    let l = protect(strings(&["main"]), "trunk");
    assert_eq!(l, strings(&["main", "trunk"]));
    let again = protect(l.clone(), "trunk");
    assert_eq!(again, l);
}

#[test]
fn unprotect_removes_every_copy() {
    let (l, found) = unprotect(strings(&["a", "b", "a"]), "a");
    assert_eq!(l, strings(&["b"]));
    assert!(found);
    let (l, found) = unprotect(strings(&["b"]), "zzz");
    assert_eq!(l, strings(&["b"]));
    assert!(!found);
}

#[test]
fn protected_list_is_written_under_branches() {
    let mut doc = parse_toml("[ticket]\npattern = \"X\"\n").unwrap();
    set_protected_list(&mut doc, &strings(&["main", "trunk"])).unwrap();
    match get_dotted(&doc, "branches.protected") {
        Some(TomlValue::Array(items)) => {
            assert_eq!(items.len(), 2);
            assert!(matches!(&items[1], TomlValue::String(s) if s == "trunk"));
        }
        other => panic!("unexpected {other:?}"),
    }
    assert!(matches!(get_dotted(&doc, "ticket.pattern"), Some(TomlValue::String(s)) if s == "X"));
    let mut doc = parse_toml("[branches]\ndefault_base = \"dev\"\n").unwrap();
    set_protected_list(&mut doc, &strings(&["x"])).unwrap();
    assert!(matches!(get_dotted(&doc, "branches.default_base"), Some(TomlValue::String(s)) if s == "dev"));
}

#[test]
fn protected_list_write_errors() {
    let mut doc = parse_toml("branches = 1\n").unwrap();
    assert_eq!(
        set_protected_list(&mut doc, &strings(&["x"])),
        Err("[branches] is not a table".to_string())
    );
    let mut not_table = TomlValue::Integer(3);
    assert_eq!(
        set_protected_list(&mut not_table, &strings(&["x"])),
        Err("expected top-level table".to_string())
    );
}

#[test]
fn protect_target_and_listing() {
    assert_eq!(target_path(true, Some("/r"), None), Ok("/r/.tix.toml".to_string()));
    assert_eq!(target_path(false, None, None), Err("could not resolve config dir".to_string()));
    assert_eq!(
        resolved_list(&strings(&["main", "release/*"])),
        strings(&["protected branches:", "  - main", "  - release/*"])
    );
}
