//! Error kinds surfaced to the UI, and the human-readable text each one
//! carries.

use vstd::prelude::*;
use vstd::string::StringExecFns;

verus! {

/// Every failure a command can surface. Kill failures and child exits
/// are deliberately absent: they are absorbed and show up through the
/// next monitor tick instead.
#[derive(Debug)]
pub enum VpnError {
    /// The client binary is not on `PATH`.
    BinaryMissing,
    /// Non-interactive privilege elevation was refused.
    PrivilegeDenied,
    /// The child process failed to start; carries the OS detail.
    Spawn(String),
    /// The log file or directory could not be opened or written.
    LogIo(String),
    /// The configuration file could not be read or written.
    ConfigIo(String),
    /// The configuration file held text that does not decode.
    ConfigParse,
    /// Supervisor invariant violation, such as a poisoned lock.
    Internal,
}

/// The text shown for a spawn failure, before the OS detail.
pub open spec fn spawn_prefix() -> Seq<char> {
    "Failed to start openconnect: "@
}

/// The text shown for a log I/O failure, before the OS detail.
pub open spec fn log_prefix() -> Seq<char> {
    "Failed to open log file: "@
}

/// The text an error surfaces to the UI.
pub open spec fn spec_message(e: VpnError) -> Seq<char> {
    match e {
        VpnError::BinaryMissing => "openconnect is not installed"@,
        VpnError::PrivilegeDenied => "sudo refused non-interactive use"@,
        VpnError::Spawn(d) => spawn_prefix() + d@,
        VpnError::LogIo(d) => log_prefix() + d@,
        VpnError::ConfigIo(d) => d@,
        VpnError::ConfigParse => "Invalid configuration file"@,
        VpnError::Internal => "Failed to lock state"@,
    }
}

impl VpnError {
    /// Renders the error as the string handed to the UI.
    pub fn message(&self) -> (r: String)
        ensures
            r@ == spec_message(*self),
    {
        match self {
            VpnError::BinaryMissing => String::from_str("openconnect is not installed"),
            VpnError::PrivilegeDenied => String::from_str("sudo refused non-interactive use"),
            VpnError::Spawn(d) => {
                let mut m = String::from_str("Failed to start openconnect: ");
                m.append(d.as_str());
                m
            },
            VpnError::LogIo(d) => {
                let mut m = String::from_str("Failed to open log file: ");
                m.append(d.as_str());
                m
            },
            VpnError::ConfigIo(d) => String::from_str(d.as_str()),
            VpnError::ConfigParse => String::from_str("Invalid configuration file"),
            VpnError::Internal => String::from_str("Failed to lock state"),
        }
    }
}

} // verus!
