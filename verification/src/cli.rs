//! The command line of `tix`, as the program parses it.

use vstd::prelude::*;

verus! {

/// A parsed `tix` command line.
#[derive(Debug, Clone, PartialEq, Eq)]
pub struct Cli {
    pub command: Command,
}

/// The subcommands of `tix`.
#[derive(Debug, Clone, PartialEq, Eq)]
pub enum Command {
    /// Install global hooks and scaffold the global config.
    Init { dry_run: bool, force: bool },
    /// Remove the managed hooks and, with `purge`, the global config.
    Uninstall { dry_run: bool, purge: bool },
    /// Create a branch off the latest base and register the ticket.
    Start { ticket: String, description: Option<String>, base: Option<String> },
    /// Set the ticket for the current branch, and offer to put it in front of the
    /// branch's earlier commits (`force` allows rewriting pushed ones, `yes` skips
    /// the questions).
    SetTicket { ticket: String, force: bool, yes: bool },
    /// Clear the ticket for the current branch (no-ticket mode).
    ClearTicket,
    /// Show the current branch, ticket, protected status, base and config sources.
    Show,
    /// Add a branch pattern to the protected list.
    Protect { branch: String, scope: ScopeFlags },
    /// Remove a branch pattern from the protected list.
    Unprotect { branch: String, scope: ScopeFlags },
    /// Read or write config values.
    Config { action: ConfigAction },
    /// Run diagnostic checks.
    Doctor { verbose: bool },
    /// Open a PR for the current branch.
    Pr,
    /// Print or open the current branch's ticket URL.
    Ticket { action: Option<TicketAction> },
    /// Run an installed git hook.
    Hook { name: String, args: Vec<String> },
}

/// The actions of `tix config`.
#[derive(Debug, Clone, PartialEq, Eq)]
pub enum ConfigAction {
    /// Print one value with its source.
    Get { key: String },
    /// Write a value (or change a list) in a config file.
    SetValue { key: String, value: Option<String>, scope: ScopeFlags, append: Option<String>, remove: Option<String> },
    /// Print every key with its value and source, or one file as written.
    List { global: bool, repo: bool, all: bool },
}

/// The actions of `tix ticket`.
#[derive(Debug, Clone, Copy, PartialEq, Eq, Structural)]
pub enum TicketAction {
    /// Open the ticket URL in the default browser.
    Open,
}

/// Which config file a write goes to: the global one unless `repo` is set (at most
/// one of the two is set).
#[derive(Debug, Clone, Copy, PartialEq, Eq, Structural)]
pub struct ScopeFlags {
    pub global: bool,
    pub repo: bool,
}

} // verus!
