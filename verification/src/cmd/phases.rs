//! The measurement-by-phases command.

use vstd::prelude::*;
use crate::cli::PhasesArgs;
use crate::cmd::{mode_of, MeasurementPlan, RunMode};
use crate::config::{is_phases_config, phases_fault, Config};
use crate::errors::JouleProfilerError;
use crate::rapl::domain::RaplDomain;

verus! {

/// Settles a measurement by phases: the settings that `args` ask for,
/// and whether the command is run once or in a batch, or the first
/// reason to refuse the request. A request that is in order otherwise is
/// refused exactly where its token pattern does not compile.
pub fn run_phases(args: PhasesArgs, domains: &[RaplDomain]) -> (r: Result<
    MeasurementPlan,
    JouleProfilerError,
>)
    ensures
        match phases_fault(args, domains@) {
            Some(fault) => r matches Err(e) && e@ == fault,
            None => r matches Ok(plan) && plan.mode == mode_of(args.iterations) && is_phases_config(
                plan.config,
                args,
                domains@,
            ),
        },
{
    let config = match Config::from_phases(args, domains) {
        Ok(c) => c,
        Err(e) => {
            return Err(e);
        },
    };
    let mode = match config.iterations {
        Some(n) => RunMode::Iterations(n),
        None => RunMode::Single,
    };
    Ok(MeasurementPlan { config, mode })
}

} // verus!
