use tix_git::config::{
    schema, Config, ConfigField, RawBranches, RawConfig, RawPush, RawTicket, Source,
};

const ALL_FIELDS: [&str; 11] = [
    "ticket.pattern",
    "ticket.prefix_format",
    "branches.protected",
    "branches.default_base",
    "branches.start_prefix",
    "branches.naming_pattern",
    "branches.naming_enforcement",
    "push.stale_warn_threshold",
    "integrations.ticket_url_template",
    "integrations.pr_provider",
    "integrations.pr_command",
];

#[test]
fn defaults_match_spec() {
    let c = Config::defaults();
    assert_eq!(c.ticket.pattern, r"^[A-Z]+-\d+$");
    assert_eq!(c.ticket.prefix_format, "{ticket} {message}");
    assert_eq!(
        c.branches.protected,
        vec!["main", "master", "develop", "release/*"]
    );
    assert_eq!(c.branches.default_base, "main");
    assert_eq!(c.branches.start_prefix, "feature");
    assert_eq!(c.branches.naming_enforcement, "warn");
    assert_eq!(c.push.stale_warn_threshold, 50);
    assert_eq!(c.integrations.ticket_url_template, "");
    assert_eq!(c.integrations.pr_provider, "github");
    assert_eq!(c.integrations.pr_command, "auto");
}

#[test]
fn defaults_have_default_source_for_every_field() {
    let c = Config::defaults();
    for f in ALL_FIELDS {
        assert_eq!(c.source(f), Some(Source::Default), "field {f}");
    }
}

#[test]
fn unknown_field_returns_none() {
    let c = Config::defaults();
    assert_eq!(c.source("nope.nope"), None);
}

fn branches(default_base: Option<&str>, start_prefix: Option<&str>) -> RawConfig {
    RawConfig {
        branches: Some(RawBranches {
            default_base: default_base.map(str::to_string),
            start_prefix: start_prefix.map(str::to_string),
            ..Default::default()
        }),
        ..Default::default()
    }
}

#[test]
fn missing_files_returns_defaults() {
    let c = Config::load_from_paths(None, None);
    assert_eq!(c, Config::defaults());
}

#[test]
fn global_overrides_default() {
    let g = branches(Some("develop"), None);
    let c = Config::load_from_paths(Some(g), None);
    assert_eq!(c.branches.default_base, "develop");
    assert_eq!(c.branches.start_prefix, "feature");
    assert_eq!(c.source("branches.default_base"), Some(Source::Global));
    assert_eq!(c.source("branches.start_prefix"), Some(Source::Default));
}

#[test]
fn repo_overrides_global() {
    let g = branches(Some("develop"), Some("feat"));
    let r = branches(Some("trunk"), None);
    let c = Config::load_from_paths(Some(g), Some(r));
    assert_eq!(c.branches.default_base, "trunk");
    assert_eq!(c.branches.start_prefix, "feat");
    assert_eq!(c.source("branches.default_base"), Some(Source::Repo));
    assert_eq!(c.source("branches.start_prefix"), Some(Source::Global));
}

#[test]
fn list_value_replaced_not_merged() {
    let r = RawConfig {
        branches: Some(RawBranches {
            protected: Some(vec!["trunk".to_string()]),
            ..Default::default()
        }),
        ..Default::default()
    };
    let c = Config::load_from_paths(None, Some(r));
    assert_eq!(c.branches.protected, vec!["trunk"]);
}

#[test]
fn empty_file_changes_nothing() {
    let c = Config::load_from_paths(Some(RawConfig::default()), Some(RawConfig::default()));
    assert_eq!(c, Config::defaults());
}

#[test]
fn overlay_marks_each_set_key_with_its_layer() {
    let mut c = Config::defaults();
    c.overlay(
        RawConfig {
            ticket: Some(RawTicket {
                pattern: Some("^T-\\d+$".to_string()),
                prefix_format: None,
            }),
            push: Some(RawPush {
                stale_warn_threshold: Some(0),
            }),
            ..Default::default()
        },
        Source::Repo,
    );
    assert_eq!(c.ticket.pattern, "^T-\\d+$");
    assert_eq!(c.push.stale_warn_threshold, 0);
    assert_eq!(c.source("ticket.pattern"), Some(Source::Repo));
    assert_eq!(c.source("push.stale_warn_threshold"), Some(Source::Repo));
    assert_eq!(c.source("ticket.prefix_format"), Some(Source::Default));
    assert_eq!(c.source_of(ConfigField::TicketPattern), Source::Repo);
}

#[test]
fn field_names_round_trip() {
    for name in ALL_FIELDS {
        let f = ConfigField::from_name(name).unwrap();
        assert_eq!(f.name(), name);
    }
    assert_eq!(ConfigField::from_name("ticket"), None);
}

#[test]
fn schema_lists_every_key_in_order() {
    let names: Vec<&str> = schema().iter().map(|f| f.name()).collect();
    assert_eq!(names, ALL_FIELDS.to_vec());
}
