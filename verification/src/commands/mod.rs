//! The logic of the `tix` subcommands.

pub mod amend;
pub mod config_cmd;
pub mod doctor;
pub mod init;
pub mod pr;
pub mod protect;
pub mod set_ticket;
pub mod show;
pub mod start;
pub mod ticket_url;
pub mod uninstall;
