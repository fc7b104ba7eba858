//! Layered configuration: built-in defaults, then the global file, then the repo
//! file, the last one that sets a key winning. Each key remembers which layer set it.

use vstd::prelude::*;

use crate::text::str_eq;
pub use crate::text::strings_view;

verus! {

/// The layer a configuration value comes from.
#[derive(Debug, Clone, Copy, PartialEq, Eq, Structural)]
pub enum Source {
    Default,
    Global,
    Repo,
}

/// The `[ticket]` table.
#[derive(Debug, Clone, PartialEq, Eq)]
pub struct TicketConfig {
    pub pattern: String,
    pub prefix_format: String,
}

/// The `[branches]` table.
#[derive(Debug, Clone, PartialEq, Eq)]
pub struct BranchesConfig {
    pub protected: Vec<String>,
    pub default_base: String,
    pub start_prefix: String,
    pub naming_pattern: String,
    pub naming_enforcement: String,
}

/// The `[push]` table.
#[derive(Debug, Clone, PartialEq, Eq)]
pub struct PushConfig {
    pub stale_warn_threshold: u32,
}

/// The `[integrations]` table.
#[derive(Debug, Clone, PartialEq, Eq)]
pub struct IntegrationsConfig {
    pub ticket_url_template: String,
    pub pr_provider: String,
    pub pr_command: String,
}

/// The keys of the configuration.
#[derive(Debug, Clone, Copy, PartialEq, Eq, Structural)]
pub enum ConfigField {
    TicketPattern,
    TicketPrefixFormat,
    BranchesProtected,
    BranchesDefaultBase,
    BranchesStartPrefix,
    BranchesNamingPattern,
    BranchesNamingEnforcement,
    PushStaleWarnThreshold,
    IntegrationsTicketUrlTemplate,
    IntegrationsPrProvider,
    IntegrationsPrCommand,
}

/// The value of one configuration key, as a mathematical value.
pub enum FieldValue {
    Text(Seq<char>),
    List(Seq<Seq<char>>),
    Count(u32),
}

/// All keys, in the order `tix config` lists them.
pub open spec fn schema_fields() -> Seq<ConfigField> {
    seq![
        ConfigField::TicketPattern,
        ConfigField::TicketPrefixFormat,
        ConfigField::BranchesProtected,
        ConfigField::BranchesDefaultBase,
        ConfigField::BranchesStartPrefix,
        ConfigField::BranchesNamingPattern,
        ConfigField::BranchesNamingEnforcement,
        ConfigField::PushStaleWarnThreshold,
        ConfigField::IntegrationsTicketUrlTemplate,
        ConfigField::IntegrationsPrProvider,
        ConfigField::IntegrationsPrCommand,
    ]
}

/// All keys, in the order `tix config` lists them.
pub fn schema() -> (v: Vec<ConfigField>)
    ensures
        v@ == schema_fields(),
{
    let v = vec![
        ConfigField::TicketPattern,
        ConfigField::TicketPrefixFormat,
        ConfigField::BranchesProtected,
        ConfigField::BranchesDefaultBase,
        ConfigField::BranchesStartPrefix,
        ConfigField::BranchesNamingPattern,
        ConfigField::BranchesNamingEnforcement,
        ConfigField::PushStaleWarnThreshold,
        ConfigField::IntegrationsTicketUrlTemplate,
        ConfigField::IntegrationsPrProvider,
        ConfigField::IntegrationsPrCommand,
    ];
    assert(v@ =~= schema_fields());
    v
}

/// The dotted name of a key, as written in the files and on the command line.
pub open spec fn field_name(f: ConfigField) -> Seq<char> {
    match f {
        ConfigField::TicketPattern => "ticket.pattern"@,
        ConfigField::TicketPrefixFormat => "ticket.prefix_format"@,
        ConfigField::BranchesProtected => "branches.protected"@,
        ConfigField::BranchesDefaultBase => "branches.default_base"@,
        ConfigField::BranchesStartPrefix => "branches.start_prefix"@,
        ConfigField::BranchesNamingPattern => "branches.naming_pattern"@,
        ConfigField::BranchesNamingEnforcement => "branches.naming_enforcement"@,
        ConfigField::PushStaleWarnThreshold => "push.stale_warn_threshold"@,
        ConfigField::IntegrationsTicketUrlTemplate => "integrations.ticket_url_template"@,
        ConfigField::IntegrationsPrProvider => "integrations.pr_provider"@,
        ConfigField::IntegrationsPrCommand => "integrations.pr_command"@,
    }
}

/// The key named `s`, looked up in the order the keys are listed.
pub open spec fn field_named(s: Seq<char>) -> Option<ConfigField> {
    if s == "ticket.pattern"@ {
        Some(ConfigField::TicketPattern)
    } else if s == "ticket.prefix_format"@ {
        Some(ConfigField::TicketPrefixFormat)
    } else if s == "branches.protected"@ {
        Some(ConfigField::BranchesProtected)
    } else if s == "branches.default_base"@ {
        Some(ConfigField::BranchesDefaultBase)
    } else if s == "branches.start_prefix"@ {
        Some(ConfigField::BranchesStartPrefix)
    } else if s == "branches.naming_pattern"@ {
        Some(ConfigField::BranchesNamingPattern)
    } else if s == "branches.naming_enforcement"@ {
        Some(ConfigField::BranchesNamingEnforcement)
    } else if s == "push.stale_warn_threshold"@ {
        Some(ConfigField::PushStaleWarnThreshold)
    } else if s == "integrations.ticket_url_template"@ {
        Some(ConfigField::IntegrationsTicketUrlTemplate)
    } else if s == "integrations.pr_provider"@ {
        Some(ConfigField::IntegrationsPrProvider)
    } else if s == "integrations.pr_command"@ {
        Some(ConfigField::IntegrationsPrCommand)
    } else {
        None
    }
}

impl ConfigField {
    /// The key named `s`, if there is one.
    pub fn from_name(s: &str) -> (r: Option<ConfigField>)
        ensures
            r == field_named(s@),
    {
        if str_eq(s, "ticket.pattern") {
            Some(ConfigField::TicketPattern)
        } else if str_eq(s, "ticket.prefix_format") {
            Some(ConfigField::TicketPrefixFormat)
        } else if str_eq(s, "branches.protected") {
            Some(ConfigField::BranchesProtected)
        } else if str_eq(s, "branches.default_base") {
            Some(ConfigField::BranchesDefaultBase)
        } else if str_eq(s, "branches.start_prefix") {
            Some(ConfigField::BranchesStartPrefix)
        } else if str_eq(s, "branches.naming_pattern") {
            Some(ConfigField::BranchesNamingPattern)
        } else if str_eq(s, "branches.naming_enforcement") {
            Some(ConfigField::BranchesNamingEnforcement)
        } else if str_eq(s, "push.stale_warn_threshold") {
            Some(ConfigField::PushStaleWarnThreshold)
        } else if str_eq(s, "integrations.ticket_url_template") {
            Some(ConfigField::IntegrationsTicketUrlTemplate)
        } else if str_eq(s, "integrations.pr_provider") {
            Some(ConfigField::IntegrationsPrProvider)
        } else if str_eq(s, "integrations.pr_command") {
            Some(ConfigField::IntegrationsPrCommand)
        } else {
            None
        }
    }

    /// The dotted name of the key.
    pub fn name(&self) -> (s: &'static str)
        ensures
            s@ == field_name(*self),
    {
        match self {
            ConfigField::TicketPattern => "ticket.pattern",
            ConfigField::TicketPrefixFormat => "ticket.prefix_format",
            ConfigField::BranchesProtected => "branches.protected",
            ConfigField::BranchesDefaultBase => "branches.default_base",
            ConfigField::BranchesStartPrefix => "branches.start_prefix",
            ConfigField::BranchesNamingPattern => "branches.naming_pattern",
            ConfigField::BranchesNamingEnforcement => "branches.naming_enforcement",
            ConfigField::PushStaleWarnThreshold => "push.stale_warn_threshold",
            ConfigField::IntegrationsTicketUrlTemplate => "integrations.ticket_url_template",
            ConfigField::IntegrationsPrProvider => "integrations.pr_provider",
            ConfigField::IntegrationsPrCommand => "integrations.pr_command",
        }
    }
}

/// Which layer set each key (read through `Config::source`).
#[derive(Debug, Clone, PartialEq, Eq)]
pub struct FieldSources {
    ticket_pattern: Source,
    ticket_prefix_format: Source,
    branches_protected: Source,
    branches_default_base: Source,
    branches_start_prefix: Source,
    branches_naming_pattern: Source,
    branches_naming_enforcement: Source,
    push_stale_warn_threshold: Source,
    integrations_ticket_url_template: Source,
    integrations_pr_provider: Source,
    integrations_pr_command: Source,
}

/// The resolved configuration.
#[derive(Debug, Clone, PartialEq, Eq)]
pub struct Config {
    pub ticket: TicketConfig,
    pub branches: BranchesConfig,
    pub push: PushConfig,
    pub integrations: IntegrationsConfig,
    pub sources: FieldSources,
}

/// The `[ticket]` table of a config file, each key optional.
#[derive(Debug, Clone, Default, PartialEq, Eq)]
pub struct RawTicket {
    pub pattern: Option<String>,
    pub prefix_format: Option<String>,
}

/// The `[branches]` table of a config file, each key optional.
#[derive(Debug, Clone, Default, PartialEq, Eq)]
pub struct RawBranches {
    pub protected: Option<Vec<String>>,
    pub default_base: Option<String>,
    pub start_prefix: Option<String>,
    pub naming_pattern: Option<String>,
    pub naming_enforcement: Option<String>,
}

/// The `[push]` table of a config file.
#[derive(Debug, Clone, Default, PartialEq, Eq)]
pub struct RawPush {
    pub stale_warn_threshold: Option<u32>,
}

/// The `[integrations]` table of a config file, each key optional.
#[derive(Debug, Clone, Default, PartialEq, Eq)]
pub struct RawIntegrations {
    pub ticket_url_template: Option<String>,
    pub pr_provider: Option<String>,
    pub pr_command: Option<String>,
}

/// The contents of one config file, each table and key optional.
#[derive(Debug, Clone, Default, PartialEq, Eq)]
pub struct RawConfig {
    pub ticket: Option<RawTicket>,
    pub branches: Option<RawBranches>,
    pub push: Option<RawPush>,
    pub integrations: Option<RawIntegrations>,
}

/// The text value held by an optional string.
pub open spec fn text_opt(o: Option<String>) -> Option<FieldValue> {
    match o {
        Some(s) => Some(FieldValue::Text(s@)),
        None => None,
    }
}

impl RawConfig {
    /// The value this file gives the key `f`, if it sets it.
    pub open spec fn value_of(self, f: ConfigField) -> Option<FieldValue> {
        match f {
            ConfigField::TicketPattern => match self.ticket {
                Some(t) => text_opt(t.pattern),
                None => None,
            },
            ConfigField::TicketPrefixFormat => match self.ticket {
                Some(t) => text_opt(t.prefix_format),
                None => None,
            },
            ConfigField::BranchesProtected => match self.branches {
                Some(b) => match b.protected {
                    Some(l) => Some(FieldValue::List(strings_view(l@))),
                    None => None,
                },
                None => None,
            },
            ConfigField::BranchesDefaultBase => match self.branches {
                Some(b) => text_opt(b.default_base),
                None => None,
            },
            ConfigField::BranchesStartPrefix => match self.branches {
                Some(b) => text_opt(b.start_prefix),
                None => None,
            },
            ConfigField::BranchesNamingPattern => match self.branches {
                Some(b) => text_opt(b.naming_pattern),
                None => None,
            },
            ConfigField::BranchesNamingEnforcement => match self.branches {
                Some(b) => text_opt(b.naming_enforcement),
                None => None,
            },
            ConfigField::PushStaleWarnThreshold => match self.push {
                Some(p) => match p.stale_warn_threshold {
                    Some(n) => Some(FieldValue::Count(n)),
                    None => None,
                },
                None => None,
            },
            ConfigField::IntegrationsTicketUrlTemplate => match self.integrations {
                Some(i) => text_opt(i.ticket_url_template),
                None => None,
            },
            ConfigField::IntegrationsPrProvider => match self.integrations {
                Some(i) => text_opt(i.pr_provider),
                None => None,
            },
            ConfigField::IntegrationsPrCommand => match self.integrations {
                Some(i) => text_opt(i.pr_command),
                None => None,
            },
        }
    }
}

/// The built-in value of each key.
pub open spec fn default_value(f: ConfigField) -> FieldValue {
    match f {
        ConfigField::TicketPattern => FieldValue::Text("^[A-Z]+-\\d+$"@),
        ConfigField::TicketPrefixFormat => FieldValue::Text("{ticket} {message}"@),
        ConfigField::BranchesProtected => FieldValue::List(
            seq!["main"@, "master"@, "develop"@, "release/*"@],
        ),
        ConfigField::BranchesDefaultBase => FieldValue::Text("main"@),
        ConfigField::BranchesStartPrefix => FieldValue::Text("feature"@),
        ConfigField::BranchesNamingPattern => FieldValue::Text(
            "^(feature|bugfix|hotfix|chore)/[A-Z]+-\\d+(-.+)?$"@,
        ),
        ConfigField::BranchesNamingEnforcement => FieldValue::Text("warn"@),
        ConfigField::PushStaleWarnThreshold => FieldValue::Count(50),
        ConfigField::IntegrationsTicketUrlTemplate => FieldValue::Text(""@),
        ConfigField::IntegrationsPrProvider => FieldValue::Text("github"@),
        ConfigField::IntegrationsPrCommand => FieldValue::Text("auto"@),
    }
}

/// The value a key resolves to over the layers: the repo file if it sets the key,
/// else the global file if it does, else the built-in default.
pub open spec fn layered_value(global: Option<RawConfig>, repo: Option<RawConfig>, f: ConfigField) -> FieldValue {
    match (repo, global) {
        (Some(r), _) if r.value_of(f) is Some => r.value_of(f)->0,
        (_, Some(g)) if g.value_of(f) is Some => g.value_of(f)->0,
        _ => default_value(f),
    }
}

/// The layer a key's resolved value comes from.
pub open spec fn layered_source(global: Option<RawConfig>, repo: Option<RawConfig>, f: ConfigField) -> Source {
    match (repo, global) {
        (Some(r), _) if r.value_of(f) is Some => Source::Repo,
        (_, Some(g)) if g.value_of(f) is Some => Source::Global,
        _ => Source::Default,
    }
}

impl Config {
    /// The resolved value of the key `f`.
    pub open spec fn value_of(self, f: ConfigField) -> FieldValue {
        match f {
            ConfigField::TicketPattern => FieldValue::Text(self.ticket.pattern@),
            ConfigField::TicketPrefixFormat => FieldValue::Text(self.ticket.prefix_format@),
            ConfigField::BranchesProtected => FieldValue::List(strings_view(self.branches.protected@)),
            ConfigField::BranchesDefaultBase => FieldValue::Text(self.branches.default_base@),
            ConfigField::BranchesStartPrefix => FieldValue::Text(self.branches.start_prefix@),
            ConfigField::BranchesNamingPattern => FieldValue::Text(self.branches.naming_pattern@),
            ConfigField::BranchesNamingEnforcement => FieldValue::Text(
                self.branches.naming_enforcement@,
            ),
            ConfigField::PushStaleWarnThreshold => FieldValue::Count(self.push.stale_warn_threshold),
            ConfigField::IntegrationsTicketUrlTemplate => FieldValue::Text(
                self.integrations.ticket_url_template@,
            ),
            ConfigField::IntegrationsPrProvider => FieldValue::Text(self.integrations.pr_provider@),
            ConfigField::IntegrationsPrCommand => FieldValue::Text(self.integrations.pr_command@),
        }
    }

    /// The layer the key `f` was set by.
    pub closed spec fn field_source(self, f: ConfigField) -> Source {
        match f {
            ConfigField::TicketPattern => self.sources.ticket_pattern,
            ConfigField::TicketPrefixFormat => self.sources.ticket_prefix_format,
            ConfigField::BranchesProtected => self.sources.branches_protected,
            ConfigField::BranchesDefaultBase => self.sources.branches_default_base,
            ConfigField::BranchesStartPrefix => self.sources.branches_start_prefix,
            ConfigField::BranchesNamingPattern => self.sources.branches_naming_pattern,
            ConfigField::BranchesNamingEnforcement => self.sources.branches_naming_enforcement,
            ConfigField::PushStaleWarnThreshold => self.sources.push_stale_warn_threshold,
            ConfigField::IntegrationsTicketUrlTemplate => self.sources.integrations_ticket_url_template,
            ConfigField::IntegrationsPrProvider => self.sources.integrations_pr_provider,
            ConfigField::IntegrationsPrCommand => self.sources.integrations_pr_command,
        }
    }

    /// The built-in configuration, every key marked as coming from the defaults.
    pub fn defaults() -> (c: Self)
        ensures
            forall|f: ConfigField| #[trigger] c.value_of(f) == default_value(f),
            forall|f: ConfigField| #[trigger] c.field_source(f) == Source::Default,
    {
        let protected = vec![
            "main".to_owned(),
            "master".to_owned(),
            "develop".to_owned(),
            "release/*".to_owned(),
        ];
        let c = Config {
            ticket: TicketConfig {
                pattern: "^[A-Z]+-\\d+$".to_owned(),
                prefix_format: "{ticket} {message}".to_owned(),
            },
            branches: BranchesConfig {
                protected,
                default_base: "main".to_owned(),
                start_prefix: "feature".to_owned(),
                naming_pattern: "^(feature|bugfix|hotfix|chore)/[A-Z]+-\\d+(-.+)?$".to_owned(),
                naming_enforcement: "warn".to_owned(),
            },
            push: PushConfig { stale_warn_threshold: 50 },
            integrations: IntegrationsConfig {
                ticket_url_template: "".to_owned(),
                pr_provider: "github".to_owned(),
                pr_command: "auto".to_owned(),
            },
            sources: FieldSources {
                ticket_pattern: Source::Default,
                ticket_prefix_format: Source::Default,
                branches_protected: Source::Default,
                branches_default_base: Source::Default,
                branches_start_prefix: Source::Default,
                branches_naming_pattern: Source::Default,
                branches_naming_enforcement: Source::Default,
                push_stale_warn_threshold: Source::Default,
                integrations_ticket_url_template: Source::Default,
                integrations_pr_provider: Source::Default,
                integrations_pr_command: Source::Default,
            },
        };
        assert(strings_view(c.branches.protected@) =~= seq!["main"@, "master"@, "develop"@, "release/*"@]);
        c
    }

    /// The layer the key named `field` was set by; `None` for an unknown key.
    pub fn source(&self, field: &str) -> (r: Option<Source>)
        ensures
            r == match field_named(field@) {
                Some(f) => Some(self.field_source(f)),
                None => None,
            },
    {
        match ConfigField::from_name(field) {
            Some(f) => Some(self.source_of(f)),
            None => None,
        }
    }

    /// The layer the key `f` was set by.
    pub fn source_of(&self, f: ConfigField) -> (r: Source)
        ensures
            r == self.field_source(f),
    {
        match f {
            ConfigField::TicketPattern => self.sources.ticket_pattern,
            ConfigField::TicketPrefixFormat => self.sources.ticket_prefix_format,
            ConfigField::BranchesProtected => self.sources.branches_protected,
            ConfigField::BranchesDefaultBase => self.sources.branches_default_base,
            ConfigField::BranchesStartPrefix => self.sources.branches_start_prefix,
            ConfigField::BranchesNamingPattern => self.sources.branches_naming_pattern,
            ConfigField::BranchesNamingEnforcement => self.sources.branches_naming_enforcement,
            ConfigField::PushStaleWarnThreshold => self.sources.push_stale_warn_threshold,
            ConfigField::IntegrationsTicketUrlTemplate => self.sources.integrations_ticket_url_template,
            ConfigField::IntegrationsPrProvider => self.sources.integrations_pr_provider,
            ConfigField::IntegrationsPrCommand => self.sources.integrations_pr_command,
        }
    }

    /// Records that the key `f` was set by the layer `src`.
    fn mark(&mut self, f: ConfigField, src: Source)
        ensures
            forall|g: ConfigField| #[trigger] final(self).field_source(g) == if g == f {
                src
            } else {
                old(self).field_source(g)
            },
            final(self).ticket == old(self).ticket,
            final(self).branches == old(self).branches,
            final(self).push == old(self).push,
            final(self).integrations == old(self).integrations,
    {
        match f {
            ConfigField::TicketPattern => self.sources.ticket_pattern = src,
            ConfigField::TicketPrefixFormat => self.sources.ticket_prefix_format = src,
            ConfigField::BranchesProtected => self.sources.branches_protected = src,
            ConfigField::BranchesDefaultBase => self.sources.branches_default_base = src,
            ConfigField::BranchesStartPrefix => self.sources.branches_start_prefix = src,
            ConfigField::BranchesNamingPattern => self.sources.branches_naming_pattern = src,
            ConfigField::BranchesNamingEnforcement => self.sources.branches_naming_enforcement = src,
            ConfigField::PushStaleWarnThreshold => self.sources.push_stale_warn_threshold = src,
            ConfigField::IntegrationsTicketUrlTemplate => self.sources.integrations_ticket_url_template = src,
            ConfigField::IntegrationsPrProvider => self.sources.integrations_pr_provider = src,
            ConfigField::IntegrationsPrCommand => self.sources.integrations_pr_command = src,
        }
    }

    /// Sets the text key `f` to `v`, when there is a `v`, and marks it as set by `src`.
    fn apply_text(&mut self, f: ConfigField, v: Option<String>, src: Source)
        requires
            f != ConfigField::BranchesProtected,
            f != ConfigField::PushStaleWarnThreshold,
        ensures
            forall|g: ConfigField| #[trigger] final(self).value_of(g) == if g == f && v is Some {
                FieldValue::Text(v->0@)
            } else {
                old(self).value_of(g)
            },
            forall|g: ConfigField| #[trigger] final(self).field_source(g) == if g == f && v is Some {
                src
            } else {
                old(self).field_source(g)
            },
    {
        if let Some(v) = v {
            match f {
                ConfigField::TicketPattern => self.ticket.pattern = v,
                ConfigField::TicketPrefixFormat => self.ticket.prefix_format = v,
                ConfigField::BranchesDefaultBase => self.branches.default_base = v,
                ConfigField::BranchesStartPrefix => self.branches.start_prefix = v,
                ConfigField::BranchesNamingPattern => self.branches.naming_pattern = v,
                ConfigField::BranchesNamingEnforcement => self.branches.naming_enforcement = v,
                ConfigField::IntegrationsTicketUrlTemplate => self.integrations.ticket_url_template = v,
                ConfigField::IntegrationsPrProvider => self.integrations.pr_provider = v,
                ConfigField::IntegrationsPrCommand => self.integrations.pr_command = v,
                ConfigField::BranchesProtected => {},
                ConfigField::PushStaleWarnThreshold => {},
            }
            self.mark(f, src);
        }
    }

    /// Lays the file contents `raw` over the configuration: each key the file sets
    /// takes the file's value (a list replaces the list, it is not merged) and is
    /// marked as coming from `src`; the other keys keep their value and layer.
    pub fn overlay(&mut self, raw: RawConfig, src: Source)
        ensures
            forall|f: ConfigField| #[trigger] final(self).value_of(f) == match raw.value_of(f) {
                Some(v) => v,
                None => old(self).value_of(f),
            },
            forall|f: ConfigField| #[trigger] final(self).field_source(f) == if raw.value_of(f) is Some {
                src
            } else {
                old(self).field_source(f)
            },
    {
        let RawConfig { ticket, branches, push, integrations } = raw;
        self.overlay_ticket(ticket, src);
        self.overlay_branches(branches, src);
        self.overlay_push(push, src);
        self.overlay_integrations(integrations, src);
    }

    fn overlay_ticket(&mut self, t: Option<RawTicket>, src: Source)
        ensures
            forall|f: ConfigField| #[trigger] final(self).value_of(f) == match (RawConfig { ticket: t, branches: None, push: None, integrations: None }).value_of(f) {
                Some(v) => v,
                None => old(self).value_of(f),
            },
            forall|f: ConfigField| #[trigger] final(self).field_source(f) == if (RawConfig { ticket: t, branches: None, push: None, integrations: None }).value_of(f) is Some {
                src
            } else {
                old(self).field_source(f)
            },
    {
        if let Some(t) = t {
            self.apply_text(ConfigField::TicketPattern, t.pattern, src);
            self.apply_text(ConfigField::TicketPrefixFormat, t.prefix_format, src);
        }
    }

    fn overlay_branches(&mut self, b: Option<RawBranches>, src: Source)
        ensures
            forall|f: ConfigField| #[trigger] final(self).value_of(f) == match (RawConfig { ticket: None, branches: b, push: None, integrations: None }).value_of(f) {
                Some(v) => v,
                None => old(self).value_of(f),
            },
            forall|f: ConfigField| #[trigger] final(self).field_source(f) == if (RawConfig { ticket: None, branches: b, push: None, integrations: None }).value_of(f) is Some {
                src
            } else {
                old(self).field_source(f)
            },
    {
        if let Some(b) = b {
            if let Some(v) = b.protected {
                self.branches.protected = v;
                self.mark(ConfigField::BranchesProtected, src);
            }
            self.apply_text(ConfigField::BranchesDefaultBase, b.default_base, src);
            self.apply_text(ConfigField::BranchesStartPrefix, b.start_prefix, src);
            self.apply_text(ConfigField::BranchesNamingPattern, b.naming_pattern, src);
            self.apply_text(ConfigField::BranchesNamingEnforcement, b.naming_enforcement, src);
        }
    }

    fn overlay_push(&mut self, p: Option<RawPush>, src: Source)
        ensures
            forall|f: ConfigField| #[trigger] final(self).value_of(f) == match (RawConfig { ticket: None, branches: None, push: p, integrations: None }).value_of(f) {
                Some(v) => v,
                None => old(self).value_of(f),
            },
            forall|f: ConfigField| #[trigger] final(self).field_source(f) == if (RawConfig { ticket: None, branches: None, push: p, integrations: None }).value_of(f) is Some {
                src
            } else {
                old(self).field_source(f)
            },
    {
        if let Some(p) = p {
            if let Some(v) = p.stale_warn_threshold {
                self.push.stale_warn_threshold = v;
                self.mark(ConfigField::PushStaleWarnThreshold, src);
            }
        }
    }

    fn overlay_integrations(&mut self, i: Option<RawIntegrations>, src: Source)
        ensures
            forall|f: ConfigField| #[trigger] final(self).value_of(f) == match (RawConfig { ticket: None, branches: None, push: None, integrations: i }).value_of(f) {
                Some(v) => v,
                None => old(self).value_of(f),
            },
            forall|f: ConfigField| #[trigger] final(self).field_source(f) == if (RawConfig { ticket: None, branches: None, push: None, integrations: i }).value_of(f) is Some {
                src
            } else {
                old(self).field_source(f)
            },
    {
        if let Some(i) = i {
            self.apply_text(ConfigField::IntegrationsTicketUrlTemplate, i.ticket_url_template, src);
            self.apply_text(ConfigField::IntegrationsPrProvider, i.pr_provider, src);
            self.apply_text(ConfigField::IntegrationsPrCommand, i.pr_command, src);
        }
    }

    /// Resolves the configuration from the contents of the global and the repo
    /// config files (`None` for a file that is absent): defaults, then the global
    /// file, then the repo file.
    pub fn load_from_paths(global: Option<RawConfig>, repo: Option<RawConfig>) -> (c: Self)
        ensures
            forall|f: ConfigField| #[trigger] c.value_of(f) == layered_value(global, repo, f),
            forall|f: ConfigField| #[trigger] c.field_source(f) == layered_source(global, repo, f),
            repo matches Some(r) ==> (r.ticket matches Some(x) ==> (x.pattern matches Some(v) ==> c.ticket.pattern@ == v@
                && c.field_source(ConfigField::TicketPattern) == Source::Repo)),
            repo is None ==> (global matches Some(g) ==> (g.ticket matches Some(x) ==> (x.pattern matches Some(v) ==> c.ticket.pattern@ == v@
                && c.field_source(ConfigField::TicketPattern) == Source::Global))),
            repo matches Some(r) ==> (r.ticket matches Some(x) ==> (x.prefix_format matches Some(v) ==> c.ticket.prefix_format@ == v@
                && c.field_source(ConfigField::TicketPrefixFormat) == Source::Repo)),
            repo is None ==> (global matches Some(g) ==> (g.ticket matches Some(x) ==> (x.prefix_format matches Some(v) ==> c.ticket.prefix_format@ == v@
                && c.field_source(ConfigField::TicketPrefixFormat) == Source::Global))),
            repo matches Some(r) ==> (r.branches matches Some(x) ==> (x.protected matches Some(v) ==> strings_view(c.branches.protected@) == strings_view(v@)
                && c.field_source(ConfigField::BranchesProtected) == Source::Repo)),
            repo is None ==> (global matches Some(g) ==> (g.branches matches Some(x) ==> (x.protected matches Some(v) ==> strings_view(c.branches.protected@) == strings_view(v@)
                && c.field_source(ConfigField::BranchesProtected) == Source::Global))),
            repo matches Some(r) ==> (r.branches matches Some(x) ==> (x.default_base matches Some(v) ==> c.branches.default_base@ == v@
                && c.field_source(ConfigField::BranchesDefaultBase) == Source::Repo)),
            repo is None ==> (global matches Some(g) ==> (g.branches matches Some(x) ==> (x.default_base matches Some(v) ==> c.branches.default_base@ == v@
                && c.field_source(ConfigField::BranchesDefaultBase) == Source::Global))),
            repo matches Some(r) ==> (r.branches matches Some(x) ==> (x.start_prefix matches Some(v) ==> c.branches.start_prefix@ == v@
                && c.field_source(ConfigField::BranchesStartPrefix) == Source::Repo)),
            repo is None ==> (global matches Some(g) ==> (g.branches matches Some(x) ==> (x.start_prefix matches Some(v) ==> c.branches.start_prefix@ == v@
                && c.field_source(ConfigField::BranchesStartPrefix) == Source::Global))),
            repo matches Some(r) ==> (r.branches matches Some(x) ==> (x.naming_pattern matches Some(v) ==> c.branches.naming_pattern@ == v@
                && c.field_source(ConfigField::BranchesNamingPattern) == Source::Repo)),
            repo is None ==> (global matches Some(g) ==> (g.branches matches Some(x) ==> (x.naming_pattern matches Some(v) ==> c.branches.naming_pattern@ == v@
                && c.field_source(ConfigField::BranchesNamingPattern) == Source::Global))),
            repo matches Some(r) ==> (r.branches matches Some(x) ==> (x.naming_enforcement matches Some(v) ==> c.branches.naming_enforcement@ == v@
                && c.field_source(ConfigField::BranchesNamingEnforcement) == Source::Repo)),
            repo is None ==> (global matches Some(g) ==> (g.branches matches Some(x) ==> (x.naming_enforcement matches Some(v) ==> c.branches.naming_enforcement@ == v@
                && c.field_source(ConfigField::BranchesNamingEnforcement) == Source::Global))),
            repo matches Some(r) ==> (r.push matches Some(x) ==> (x.stale_warn_threshold matches Some(v) ==> c.push.stale_warn_threshold == v
                && c.field_source(ConfigField::PushStaleWarnThreshold) == Source::Repo)),
            repo is None ==> (global matches Some(g) ==> (g.push matches Some(x) ==> (x.stale_warn_threshold matches Some(v) ==> c.push.stale_warn_threshold == v
                && c.field_source(ConfigField::PushStaleWarnThreshold) == Source::Global))),
            repo matches Some(r) ==> (r.integrations matches Some(x) ==> (x.ticket_url_template matches Some(v) ==> c.integrations.ticket_url_template@ == v@
                && c.field_source(ConfigField::IntegrationsTicketUrlTemplate) == Source::Repo)),
            repo is None ==> (global matches Some(g) ==> (g.integrations matches Some(x) ==> (x.ticket_url_template matches Some(v) ==> c.integrations.ticket_url_template@ == v@
                && c.field_source(ConfigField::IntegrationsTicketUrlTemplate) == Source::Global))),
            repo matches Some(r) ==> (r.integrations matches Some(x) ==> (x.pr_provider matches Some(v) ==> c.integrations.pr_provider@ == v@
                && c.field_source(ConfigField::IntegrationsPrProvider) == Source::Repo)),
            repo is None ==> (global matches Some(g) ==> (g.integrations matches Some(x) ==> (x.pr_provider matches Some(v) ==> c.integrations.pr_provider@ == v@
                && c.field_source(ConfigField::IntegrationsPrProvider) == Source::Global))),
            repo matches Some(r) ==> (r.integrations matches Some(x) ==> (x.pr_command matches Some(v) ==> c.integrations.pr_command@ == v@
                && c.field_source(ConfigField::IntegrationsPrCommand) == Source::Repo)),
            repo is None ==> (global matches Some(g) ==> (g.integrations matches Some(x) ==> (x.pr_command matches Some(v) ==> c.integrations.pr_command@ == v@
                && c.field_source(ConfigField::IntegrationsPrCommand) == Source::Global))),
    {
        let mut c = Self::defaults();
        if let Some(g) = global {
            c.overlay(g, Source::Global);
        }
        if let Some(r) = repo {
            c.overlay(r, Source::Repo);
        }
        proof {
            lemma_resolved_fields(c, global, repo);
        }
        c
    }
}


/// A resolved configuration holds, in its own fields, the value of every key the
/// deciding file sets.
proof fn lemma_resolved_fields(c: Config, global: Option<RawConfig>, repo: Option<RawConfig>)
    requires
        forall|f: ConfigField| #[trigger] c.value_of(f) == layered_value(global, repo, f),
        forall|f: ConfigField| #[trigger] c.field_source(f) == layered_source(global, repo, f),
    ensures
        repo matches Some(r) ==> (r.ticket matches Some(x) ==> (x.pattern matches Some(v) ==> c.ticket.pattern@ == v@
            && c.field_source(ConfigField::TicketPattern) == Source::Repo)),
        repo is None ==> (global matches Some(g) ==> (g.ticket matches Some(x) ==> (x.pattern matches Some(v) ==> c.ticket.pattern@ == v@
            && c.field_source(ConfigField::TicketPattern) == Source::Global))),
        repo matches Some(r) ==> (r.ticket matches Some(x) ==> (x.prefix_format matches Some(v) ==> c.ticket.prefix_format@ == v@
            && c.field_source(ConfigField::TicketPrefixFormat) == Source::Repo)),
        repo is None ==> (global matches Some(g) ==> (g.ticket matches Some(x) ==> (x.prefix_format matches Some(v) ==> c.ticket.prefix_format@ == v@
            && c.field_source(ConfigField::TicketPrefixFormat) == Source::Global))),
        repo matches Some(r) ==> (r.branches matches Some(x) ==> (x.protected matches Some(v) ==> strings_view(c.branches.protected@) == strings_view(v@)
            && c.field_source(ConfigField::BranchesProtected) == Source::Repo)),
        repo is None ==> (global matches Some(g) ==> (g.branches matches Some(x) ==> (x.protected matches Some(v) ==> strings_view(c.branches.protected@) == strings_view(v@)
            && c.field_source(ConfigField::BranchesProtected) == Source::Global))),
        repo matches Some(r) ==> (r.branches matches Some(x) ==> (x.default_base matches Some(v) ==> c.branches.default_base@ == v@
            && c.field_source(ConfigField::BranchesDefaultBase) == Source::Repo)),
        repo is None ==> (global matches Some(g) ==> (g.branches matches Some(x) ==> (x.default_base matches Some(v) ==> c.branches.default_base@ == v@
            && c.field_source(ConfigField::BranchesDefaultBase) == Source::Global))),
        repo matches Some(r) ==> (r.branches matches Some(x) ==> (x.start_prefix matches Some(v) ==> c.branches.start_prefix@ == v@
            && c.field_source(ConfigField::BranchesStartPrefix) == Source::Repo)),
        repo is None ==> (global matches Some(g) ==> (g.branches matches Some(x) ==> (x.start_prefix matches Some(v) ==> c.branches.start_prefix@ == v@
            && c.field_source(ConfigField::BranchesStartPrefix) == Source::Global))),
        repo matches Some(r) ==> (r.branches matches Some(x) ==> (x.naming_pattern matches Some(v) ==> c.branches.naming_pattern@ == v@
            && c.field_source(ConfigField::BranchesNamingPattern) == Source::Repo)),
        repo is None ==> (global matches Some(g) ==> (g.branches matches Some(x) ==> (x.naming_pattern matches Some(v) ==> c.branches.naming_pattern@ == v@
            && c.field_source(ConfigField::BranchesNamingPattern) == Source::Global))),
        repo matches Some(r) ==> (r.branches matches Some(x) ==> (x.naming_enforcement matches Some(v) ==> c.branches.naming_enforcement@ == v@
            && c.field_source(ConfigField::BranchesNamingEnforcement) == Source::Repo)),
        repo is None ==> (global matches Some(g) ==> (g.branches matches Some(x) ==> (x.naming_enforcement matches Some(v) ==> c.branches.naming_enforcement@ == v@
            && c.field_source(ConfigField::BranchesNamingEnforcement) == Source::Global))),
        repo matches Some(r) ==> (r.push matches Some(x) ==> (x.stale_warn_threshold matches Some(v) ==> c.push.stale_warn_threshold == v
            && c.field_source(ConfigField::PushStaleWarnThreshold) == Source::Repo)),
        repo is None ==> (global matches Some(g) ==> (g.push matches Some(x) ==> (x.stale_warn_threshold matches Some(v) ==> c.push.stale_warn_threshold == v
            && c.field_source(ConfigField::PushStaleWarnThreshold) == Source::Global))),
        repo matches Some(r) ==> (r.integrations matches Some(x) ==> (x.ticket_url_template matches Some(v) ==> c.integrations.ticket_url_template@ == v@
            && c.field_source(ConfigField::IntegrationsTicketUrlTemplate) == Source::Repo)),
        repo is None ==> (global matches Some(g) ==> (g.integrations matches Some(x) ==> (x.ticket_url_template matches Some(v) ==> c.integrations.ticket_url_template@ == v@
            && c.field_source(ConfigField::IntegrationsTicketUrlTemplate) == Source::Global))),
        repo matches Some(r) ==> (r.integrations matches Some(x) ==> (x.pr_provider matches Some(v) ==> c.integrations.pr_provider@ == v@
            && c.field_source(ConfigField::IntegrationsPrProvider) == Source::Repo)),
        repo is None ==> (global matches Some(g) ==> (g.integrations matches Some(x) ==> (x.pr_provider matches Some(v) ==> c.integrations.pr_provider@ == v@
            && c.field_source(ConfigField::IntegrationsPrProvider) == Source::Global))),
        repo matches Some(r) ==> (r.integrations matches Some(x) ==> (x.pr_command matches Some(v) ==> c.integrations.pr_command@ == v@
            && c.field_source(ConfigField::IntegrationsPrCommand) == Source::Repo)),
        repo is None ==> (global matches Some(g) ==> (g.integrations matches Some(x) ==> (x.pr_command matches Some(v) ==> c.integrations.pr_command@ == v@
            && c.field_source(ConfigField::IntegrationsPrCommand) == Source::Global))),
{
    if repo is Some {
        law_file_keys_take_effect(repo->0, global, repo, Source::Repo);
    }
    if global is Some && repo is None {
        law_file_keys_take_effect(global->0, global, repo, Source::Global);
    }
    assert(c.value_of(ConfigField::TicketPattern) == layered_value(global, repo, ConfigField::TicketPattern));
    assert(c.field_source(ConfigField::TicketPattern) == layered_source(global, repo, ConfigField::TicketPattern));
    assert(c.value_of(ConfigField::TicketPrefixFormat) == layered_value(global, repo, ConfigField::TicketPrefixFormat));
    assert(c.field_source(ConfigField::TicketPrefixFormat) == layered_source(global, repo, ConfigField::TicketPrefixFormat));
    assert(c.value_of(ConfigField::BranchesProtected) == layered_value(global, repo, ConfigField::BranchesProtected));
    assert(c.field_source(ConfigField::BranchesProtected) == layered_source(global, repo, ConfigField::BranchesProtected));
    assert(c.value_of(ConfigField::BranchesDefaultBase) == layered_value(global, repo, ConfigField::BranchesDefaultBase));
    assert(c.field_source(ConfigField::BranchesDefaultBase) == layered_source(global, repo, ConfigField::BranchesDefaultBase));
    assert(c.value_of(ConfigField::BranchesStartPrefix) == layered_value(global, repo, ConfigField::BranchesStartPrefix));
    assert(c.field_source(ConfigField::BranchesStartPrefix) == layered_source(global, repo, ConfigField::BranchesStartPrefix));
    assert(c.value_of(ConfigField::BranchesNamingPattern) == layered_value(global, repo, ConfigField::BranchesNamingPattern));
    assert(c.field_source(ConfigField::BranchesNamingPattern) == layered_source(global, repo, ConfigField::BranchesNamingPattern));
    assert(c.value_of(ConfigField::BranchesNamingEnforcement) == layered_value(global, repo, ConfigField::BranchesNamingEnforcement));
    assert(c.field_source(ConfigField::BranchesNamingEnforcement) == layered_source(global, repo, ConfigField::BranchesNamingEnforcement));
    assert(c.value_of(ConfigField::PushStaleWarnThreshold) == layered_value(global, repo, ConfigField::PushStaleWarnThreshold));
    assert(c.field_source(ConfigField::PushStaleWarnThreshold) == layered_source(global, repo, ConfigField::PushStaleWarnThreshold));
    assert(c.value_of(ConfigField::IntegrationsTicketUrlTemplate) == layered_value(global, repo, ConfigField::IntegrationsTicketUrlTemplate));
    assert(c.field_source(ConfigField::IntegrationsTicketUrlTemplate) == layered_source(global, repo, ConfigField::IntegrationsTicketUrlTemplate));
    assert(c.value_of(ConfigField::IntegrationsPrProvider) == layered_value(global, repo, ConfigField::IntegrationsPrProvider));
    assert(c.field_source(ConfigField::IntegrationsPrProvider) == layered_source(global, repo, ConfigField::IntegrationsPrProvider));
    assert(c.value_of(ConfigField::IntegrationsPrCommand) == layered_value(global, repo, ConfigField::IntegrationsPrCommand));
    assert(c.field_source(ConfigField::IntegrationsPrCommand) == layered_source(global, repo, ConfigField::IntegrationsPrCommand));
}

/// With no config file, every key has its built-in value, from the defaults.
pub proof fn law_no_files_defaults(f: ConfigField)
    ensures
        layered_value(None, None, f) == default_value(f),
        layered_source(None, None, f) == Source::Default,
{
}

/// The repo file overrides the global file: a key the repo file sets takes its
/// value from it; a key it does not set resolves as if there were no repo file.
pub proof fn law_repo_overrides_global(global: Option<RawConfig>, repo: RawConfig, f: ConfigField)
    ensures
        repo.value_of(f) is Some ==> layered_value(global, Some(repo), f) == repo.value_of(f)->0
            && layered_source(global, Some(repo), f) == Source::Repo,
        repo.value_of(f) is None ==> layered_value(global, Some(repo), f) == layered_value(global, None, f)
            && layered_source(global, Some(repo), f) == layered_source(global, None, f),
{
}

/// The global file overrides the defaults for the keys it sets.
pub proof fn law_global_overrides_defaults(global: RawConfig, f: ConfigField)
    ensures
        global.value_of(f) is Some ==> layered_value(Some(global), None, f) == global.value_of(f)->0
            && layered_source(Some(global), None, f) == Source::Global,
        global.value_of(f) is None ==> layered_value(Some(global), None, f) == default_value(f)
            && layered_source(Some(global), None, f) == Source::Default,
{
}

/// Every key a config file sets takes the file's value and is reported as coming
/// from the file's layer: the repo file always, the global file when there is no
/// repo file. Stated key by key over the file's tables.
pub proof fn law_file_keys_take_effect(file: RawConfig, global: Option<RawConfig>, repo: Option<RawConfig>, src: Source)
    requires
        (repo == Some(file) && src == Source::Repo) || (repo is None && global == Some(file) && src == Source::Global),
    ensures
        file.ticket matches Some(t) ==> (t.pattern matches Some(s) ==> layered_value(global, repo, ConfigField::TicketPattern)
            == FieldValue::Text(s@) && layered_source(global, repo, ConfigField::TicketPattern) == src),
        file.ticket matches Some(t) ==> (t.prefix_format matches Some(s) ==> layered_value(global, repo, ConfigField::TicketPrefixFormat)
            == FieldValue::Text(s@) && layered_source(global, repo, ConfigField::TicketPrefixFormat) == src),
        file.branches matches Some(b) ==> (b.protected matches Some(l) ==> layered_value(global, repo, ConfigField::BranchesProtected)
            == FieldValue::List(strings_view(l@)) && layered_source(global, repo, ConfigField::BranchesProtected) == src),
        file.branches matches Some(b) ==> (b.default_base matches Some(s) ==> layered_value(global, repo, ConfigField::BranchesDefaultBase)
            == FieldValue::Text(s@) && layered_source(global, repo, ConfigField::BranchesDefaultBase) == src),
        file.branches matches Some(b) ==> (b.start_prefix matches Some(s) ==> layered_value(global, repo, ConfigField::BranchesStartPrefix)
            == FieldValue::Text(s@) && layered_source(global, repo, ConfigField::BranchesStartPrefix) == src),
        file.branches matches Some(b) ==> (b.naming_pattern matches Some(s) ==> layered_value(global, repo, ConfigField::BranchesNamingPattern)
            == FieldValue::Text(s@) && layered_source(global, repo, ConfigField::BranchesNamingPattern) == src),
        file.branches matches Some(b) ==> (b.naming_enforcement matches Some(s) ==> layered_value(global, repo, ConfigField::BranchesNamingEnforcement)
            == FieldValue::Text(s@) && layered_source(global, repo, ConfigField::BranchesNamingEnforcement) == src),
        file.push matches Some(p) ==> (p.stale_warn_threshold matches Some(n) ==> layered_value(global, repo, ConfigField::PushStaleWarnThreshold)
            == FieldValue::Count(n) && layered_source(global, repo, ConfigField::PushStaleWarnThreshold) == src),
        file.integrations matches Some(i) ==> (i.ticket_url_template matches Some(s) ==> layered_value(global, repo, ConfigField::IntegrationsTicketUrlTemplate)
            == FieldValue::Text(s@) && layered_source(global, repo, ConfigField::IntegrationsTicketUrlTemplate) == src),
        file.integrations matches Some(i) ==> (i.pr_provider matches Some(s) ==> layered_value(global, repo, ConfigField::IntegrationsPrProvider)
            == FieldValue::Text(s@) && layered_source(global, repo, ConfigField::IntegrationsPrProvider) == src),
        file.integrations matches Some(i) ==> (i.pr_command matches Some(s) ==> layered_value(global, repo, ConfigField::IntegrationsPrCommand)
            == FieldValue::Text(s@) && layered_source(global, repo, ConfigField::IntegrationsPrCommand) == src),
{
}

} // verus!
