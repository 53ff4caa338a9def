//! The command line.

use vstd::prelude::*;

verus! {

/// Parsed command-line arguments.
pub struct Cli {
    /// Path of the configuration file (default "peregrine.yaml").
    pub config: String,
    pub command: Option<Command>,
}

/// Subcommands.
pub enum Command {
    /// Check the configuration file.
    Validate,
    /// Create a starter configuration file.
    Init,
}

/// The default configuration path, "peregrine.yaml".
pub fn default_config_path() -> (s: String)
    ensures
        s@ == "peregrine.yaml"@,
{
    String::from_str("peregrine.yaml")
}

} // verus!
