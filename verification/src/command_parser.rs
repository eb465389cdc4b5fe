//! The command line, as plain values: global flags and one subcommand.
//! Reading the process's arguments into it is the program's job.

use vstd::prelude::*;

verus! {

/// The parsed command line.
#[derive(Debug)]
pub struct Cli {
    /// Print tokens, trees and elaboration details.
    pub verbose: bool,
    /// The workspace directory, if one was given.
    pub workspace: Option<String>,
    /// What to do.
    pub command: Commands,
}

/// The subcommands.
#[derive(Debug, Clone)]
pub enum Commands {
    /// Compile a file, at an optimization level (2 by default).
    Compile { input: String, opt_level: u8 },
    /// Run an inline statement.
    Eval { code: String },
    /// Run the tests whose names match the filter, if one is given.
    Test { filter: Option<String> },
}

} // verus!
