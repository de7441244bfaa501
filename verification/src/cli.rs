//! The command line, once parsed, and what it asks the process to do.

use std::path::PathBuf;
use vstd::prelude::*;

verus! {

/// `std::path::PathBuf`, a file system path. It is declared so that the
/// command line can carry its paths: the library hands them on, never looks
/// inside one and claims nothing of it.
#[verifier::external_type_specification]
#[verifier::external_body]
pub struct ExPathBuf(PathBuf);

/// The parsed command line.
#[derive(Debug)]
pub struct Cli {
    /// Path of the configuration file.
    pub config: PathBuf,
    /// Log level.
    pub log_level: String,
    /// The subcommand, if one was given.
    pub command: Option<Commands>,
}

/// The subcommands.
#[derive(Debug)]
pub enum Commands {
    /// Write a configuration template.
    GenerateConfig {
        /// Where to write it.
        output: PathBuf,
    },
    /// Load the configuration and stop.
    Validate {
        /// The file to load instead of the one named for all commands.
        config: Option<PathBuf>,
    },
    /// Run the proxy.
    Serve,
}

/// What the process is to do.
#[derive(Debug)]
pub enum Plan<'a> {
    /// Write a configuration template to `output`.
    GenerateConfig { output: &'a PathBuf },
    /// Load the configuration at `config` and report whether it is sound.
    Validate { config: &'a PathBuf },
    /// Load the configuration at `config` and run the proxy.
    Serve { config: &'a PathBuf },
}

impl Cli {
    /// What this command line asks for. Without a subcommand the proxy
    /// runs. `validate` loads the file that it names itself, and the one
    /// named for all commands if it names none.
    pub open spec fn spec_plan(&self) -> Plan<'_> {
        match self.command {
            Some(Commands::GenerateConfig { output }) => Plan::GenerateConfig { output: &output },
            Some(Commands::Validate { config: Some(path) }) => Plan::Validate { config: &path },
            Some(Commands::Validate { config: None }) => Plan::Validate { config: &self.config },
            Some(Commands::Serve) | None => Plan::Serve { config: &self.config },
        }
    }

    /// What this command line asks for.
    pub fn plan(&self) -> (plan: Plan<'_>)
        ensures
            plan == self.spec_plan(),
    {
        match &self.command {
            Some(Commands::GenerateConfig { output }) => Plan::GenerateConfig { output },
            Some(Commands::Validate { config: Some(path) }) => Plan::Validate { config: path },
            Some(Commands::Validate { config: None }) => Plan::Validate { config: &self.config },
            Some(Commands::Serve) | None => Plan::Serve { config: &self.config },
        }
    }
}

} // verus!
