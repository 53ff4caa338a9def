pub mod args;
pub mod init;

use vstd::prelude::*;

use crate::cli::args::{Cli, Command};

verus! {

/// What a command line asks the gateway to do, with the configuration path.
pub enum CliPlan {
    /// Write a starter configuration file.
    Init { config_path: String },
    /// Load and check the configuration, then stop.
    Validate { config_path: String },
    /// Load and check the configuration, then serve.
    Serve { config_path: String },
}

/// The plan for a parsed command line: `init`, `validate`, or serving when
/// no subcommand is given.
pub fn dispatch(cli: Cli) -> (p: CliPlan)
    ensures
        p == match cli.command {
            Some(Command::Init) => CliPlan::Init { config_path: cli.config },
            Some(Command::Validate) => CliPlan::Validate { config_path: cli.config },
            None => CliPlan::Serve { config_path: cli.config },
        },
{
    match cli.command {
        Some(Command::Init) => CliPlan::Init { config_path: cli.config },
        Some(Command::Validate) => CliPlan::Validate { config_path: cli.config },
        None => CliPlan::Serve { config_path: cli.config },
    }
}

} // verus!
