//! Core logic of a GlobalProtect VPN front-end: the session supervisor
//! state machine, the status monitor's edge-triggered update rules, the
//! command lines handed to the privileged runner, and the persistence
//! models for the configuration record and the log file.

pub mod command;
pub mod config;
pub mod error;
pub mod json;
pub mod logs;
pub mod monitor;
pub mod status;
pub mod store;
pub mod supervisor;
