//! What a renderer of results can be asked to show.

use vstd::prelude::*;
use vstd::string::*;
use crate::config::Config;
use crate::errors::{Failure, JouleProfilerError};
use crate::measure::common::{MeasurementResult, PhasesResult};
use crate::text::{decimal, push_decimal};

pub mod csv;

verus! {

/// A renderer of results. It must show a single plain measurement; the
/// other three kinds of result it may leave to the defaults, which
/// report that the format does not support them and show nothing.
///
/// What is stated of a default holds of that default alone: a renderer
/// that shows such a result itself is bound by nothing here.
pub trait OutputFormat {
    /// Shows one plain measurement.
    fn simple_single(&mut self, config: &Config, res: &MeasurementResult) -> Result<
        (),
        JouleProfilerError,
    >;

    /// Shows the plain measurements of a batch.
    fn simple_iterations(&mut self, config: &Config, results: &[(usize, MeasurementResult)]) -> (r:
        Result<(), JouleProfilerError>)
        default_ensures
            r matches Err(e) && e@ == Failure::UnsupportedOutputFormat,
            &*final(self) == &*old(self),
    {
        Err(JouleProfilerError::UnsupportedOutputFormat)
    }

    /// Shows the phases of one run.
    fn phases_single(&mut self, config: &Config, phases: &PhasesResult) -> (r: Result<
        (),
        JouleProfilerError,
    >)
        default_ensures
            r matches Err(e) && e@ == Failure::UnsupportedOutputFormat,
            &*final(self) == &*old(self),
    {
        Err(JouleProfilerError::UnsupportedOutputFormat)
    }

    /// Shows the phases of every run of a batch.
    fn phases_iterations(&mut self, config: &Config, results: &[(usize, PhasesResult)]) -> (r:
        Result<(), JouleProfilerError>)
        default_ensures
            r matches Err(e) && e@ == Failure::UnsupportedOutputFormat,
            &*final(self) == &*old(self),
    {
        Err(JouleProfilerError::UnsupportedOutputFormat)
    }
}

/// The name of the file that results go to where none was given: `data`,
/// the time in seconds since 1970, a dot and the extension.
pub open spec fn default_filename(ext: Seq<char>, unix_seconds: u64) -> Seq<char> {
    "data"@ + decimal(unix_seconds as nat) + "."@ + ext
}

/// The name of the file that results go to where none was given.
pub fn default_iterations_filename(ext: &str, unix_seconds: u64) -> (name: String)
    ensures
        name@ == default_filename(ext@, unix_seconds),
{
    let mut name = String::from_str("data");
    push_decimal(&mut name, unix_seconds as u128);
    name.append(".");
    name.append(ext);
    name
}

/// The verbosity that a count of `-v` flags asks for.
pub open spec fn verbosity(level: u8) -> Seq<char> {
    if level == 0 {
        "warn"@
    } else if level == 1 {
        "info"@
    } else if level == 2 {
        "debug"@
    } else {
        "trace"@
    }
}

/// The verbosity that a count of `-v` flags asks for.
pub fn log_level(level: u8) -> (name: &'static str)
    ensures
        name@ == verbosity(level),
{
    if level == 0 {
        "warn"
    } else if level == 1 {
        "info"
    } else if level == 2 {
        "debug"
    } else {
        "trace"
    }
}

} // verus!
