//! The client's `config` subcommands, as plain values.
use vstd::prelude::*;

verus! {

/// A `config` subcommand and its arguments.
#[derive(Debug, Clone)]
pub enum ConfigCommands {
    /// Initialize configuration file.
    Init { force: bool },
    /// Set a configuration value.
    SetValue { key: String, value: String },
    /// Get a configuration value (all of them without a key).
    Get { key: Option<String>, format: String },
    /// Show configuration file path.
    Path,
    /// List all profiles.
    Profiles { format: String },
    /// Create a new profile.
    CreateProfile { name: String, relay: String, port: Option<u16>, duration: Option<u64>, default: bool },
    /// Delete a profile.
    DeleteProfile { name: String, force: bool },
    /// Validate configuration.
    Validate,
    /// Reset configuration to defaults.
    Reset { force: bool },
}

} // verus!
