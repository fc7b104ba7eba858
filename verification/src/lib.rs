//! Ticket-prefix discipline and branch protection for git workflows:
//! the decision logic of the `tix` tool, with its contracts.

pub mod cli;
pub mod commands;
pub mod config;
pub mod glob;
pub mod hooks;
pub mod paths;
pub mod prompt;
pub mod regex;
pub mod slug;
pub mod state;
pub mod text;
pub mod ticket;
pub mod toml_doc;
