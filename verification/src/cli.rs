//! What a user can ask for on the command line, as plain values.

use vstd::prelude::*;

verus! {

/// The whole command line.
#[derive(Debug)]
pub struct Cli {
    /// How often the verbosity flag was given.
    pub verbose: u8,
    /// Where to find the energy interface, if not at the usual place.
    pub rapl_path: Option<String>,
    /// What to do.
    pub command: Command,
}

/// The three things the profiler can do.
#[derive(Debug)]
pub enum Command {
    /// Measure a command, once or repeatedly.
    Simple(SimpleArgs),
    /// Measure a command by phases that its output delimits.
    Phases(PhasesArgs),
    /// Show the energy counters that are there.
    ListDomains(ListArgs),
}

/// Options for listing the counters.
#[derive(Debug)]
pub struct ListArgs {
    /// The sockets to show, as a comma-separated list.
    pub sockets: Option<String>,
    /// Show structured data.
    pub json: bool,
    /// Show delimited rows.
    pub csv: bool,
}

/// Options for a plain measurement.
#[derive(Debug)]
pub struct SimpleArgs {
    /// Export structured data.
    pub json: bool,
    /// Export delimited rows.
    pub csv: bool,
    /// How often to run the command.
    pub iterations: Option<usize>,
    /// Where exported results go.
    pub jouleit_file: Option<String>,
    /// The sockets to measure, as a comma-separated list.
    pub sockets: Option<String>,
    /// Where the command's standard output goes.
    pub output_file: Option<String>,
    /// The command and its arguments.
    pub cmd: Vec<String>,
}

/// Options for a measurement by phases.
#[derive(Debug)]
pub struct PhasesArgs {
    /// The regular expression that marks a phase boundary.
    pub token_pattern: String,
    /// Export structured data.
    pub json: bool,
    /// Export delimited rows.
    pub csv: bool,
    /// How often to run the command.
    pub iterations: Option<usize>,
    /// Where exported results go.
    pub jouleit_file: Option<String>,
    /// The sockets to measure, as a comma-separated list.
    pub sockets: Option<String>,
    /// Where the command's standard output goes.
    pub output_file: Option<String>,
    /// The command and its arguments.
    pub cmd: Vec<String>,
}

} // verus!
