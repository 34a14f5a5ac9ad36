//! The plain measurement command.

use vstd::prelude::*;
use crate::cli::SimpleArgs;
use crate::cmd::{mode_of, MeasurementPlan, RunMode};
use crate::config::{is_simple_config, simple_fault, Config};
use crate::errors::{Failure, JouleProfilerError};
use crate::measure::batch::IterationBatch;
use crate::measure::common::MeasurementResult;
use crate::rapl::domain::RaplDomain;

verus! {

/// Settles a plain measurement: the settings that `args` ask for, and
/// whether the command is run once or in a batch, or the first reason to
/// refuse the request.
pub fn run_simple(args: SimpleArgs, domains: &[RaplDomain]) -> (r: Result<
    MeasurementPlan,
    JouleProfilerError,
>)
    ensures
        match simple_fault(args, domains@) {
            Some(fault) => r matches Err(e) && e@ == fault,
            None => r matches Ok(plan) && plan.mode == mode_of(args.iterations) && is_simple_config(
                plan.config,
                args,
                domains@,
            ),
        },
{
    let config = match Config::from_simple(args, domains) {
        Ok(c) => c,
        Err(e) => {
            return Err(e);
        },
    };
    let mode = match config.iterations {
        Some(n) => RunMode::Iterations(n),
        None => RunMode::Single,
    };
    Ok(MeasurementPlan { config, mode })
}

/// Prepares `iterations` plain measurements, one after the other. A
/// batch of no iterations is refused, and nothing is prepared.
pub fn run_simple_iterations<'a>(
    config: &'a Config,
    domains: &'a [RaplDomain],
    iterations: usize,
) -> (r: Result<IterationBatch<'a, MeasurementResult>, JouleProfilerError>)
    ensures
        iterations == 0 ==> (r matches Err(e) && e@ == Failure::InvalidIterations(0)),
        iterations > 0 ==> (r matches Ok(b) && b.config == config && b.domains == domains
            && b.total == iterations && b.done@ == Seq::<(usize, MeasurementResult)>::empty()),
{
    IterationBatch::begin(config, domains, iterations)
}

} // verus!
