//! The decisions of a self-hosted runner manager, stated and proved.

pub mod archive;
pub mod channel;
pub mod failure;
pub mod hold;
pub mod origin;
pub mod paths;
pub mod provision;
pub mod proxy;
pub mod release;
pub mod replace;
pub mod supervisor;
pub mod text;
pub mod update;
pub mod watchdog;
pub mod workspace;
pub mod workspace_change;
pub mod workspace_report;
pub mod wsl_commands;
pub mod wsl_error;
pub mod wsl_report;
pub mod wsl_status;
