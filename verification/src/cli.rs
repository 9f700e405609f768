//! Command-line argument definitions.

use vstd::prelude::*;
use crate::shell::ShellOptions;

verus! {

/// The arguments of the program.
#[derive(Debug, PartialEq, Eq)]
pub struct Cli {
    /// The subcommand to run.
    pub command: Command,
}

/// Top-level subcommands.
#[derive(Debug, PartialEq, Eq)]
pub enum Command {
    /// Open the persistent Ferrous shell / REPL.
    Shell(ShellArgs),
}

/// Options for the persistent shell.
#[derive(Debug, Clone, Copy, PartialEq, Eq)]
pub struct ShellArgs {
    /// Emit structured JSON records for each session event.
    pub json: bool,
    /// Auto-approve native commands inside the workspace (test harness use
    /// only; never enables ambient authority).
    pub auto_approve_native: bool,
}

impl Cli {
    /// The options of the shell that the arguments ask for.
    pub fn shell_options(&self) -> (r: ShellOptions)
        ensures
            match self.command {
                Command::Shell(args) => r == (ShellOptions {
                    json: args.json,
                    auto_approve_native: args.auto_approve_native,
                }),
            },
    {
        match &self.command {
            Command::Shell(args) => ShellOptions {
                json: args.json,
                auto_approve_native: args.auto_approve_native,
            },
        }
    }
}

} // verus!
