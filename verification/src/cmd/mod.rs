//! What each command of the profiler comes to, before anything is read,
//! run or shown.

use vstd::prelude::*;
use crate::cli::{Cli, Command};
use crate::cmd::list_domains::{is_listing_of, run_list_domains, DomainInfo};
use crate::cmd::phases::run_phases;
use crate::cmd::simple::run_simple;
use crate::config::{
    is_phases_config,
    is_simple_config,
    phases_fault,
    simple_fault,
    text_of,
    Config,
};
use crate::errors::JouleProfilerError;
use crate::rapl::domain::{socket_filter_fault, socket_set, RaplDomain};

pub mod list_domains;
pub mod phases;
pub mod simple;

verus! {

/// Whether a command is run once or in a batch of iterations.
#[derive(Debug, Clone, Copy, PartialEq, Eq, Structural)]
pub enum RunMode {
    /// One run.
    Single,
    /// This many runs, one after the other.
    Iterations(usize),
}

/// How a run with the iteration setting `iterations` is made.
pub open spec fn mode_of(iterations: Option<usize>) -> RunMode {
    match iterations {
        Some(n) => RunMode::Iterations(n),
        None => RunMode::Single,
    }
}

/// A measurement that is settled: its settings, and whether it is run
/// once or in a batch.
#[derive(Debug)]
pub struct MeasurementPlan {
    pub config: Config,
    pub mode: RunMode,
}

/// What the profiler is to do.
#[derive(Debug)]
pub enum Plan {
    /// A plain measurement.
    Simple(MeasurementPlan),
    /// A measurement by phases.
    Phases(MeasurementPlan),
    /// A list of counters.
    ListDomains(Vec<DomainInfo>),
}

/// What the command line `cli` asks for, on a machine with the counters
/// `domains`: the plan of the command it names, or the reason to refuse
/// it.
pub fn run(cli: Cli, domains: &[RaplDomain]) -> (r: Result<Plan, JouleProfilerError>)
    ensures
        match cli.command {
            Command::Simple(args) => match simple_fault(args, domains@) {
                Some(fault) => r matches Err(e) && e@ == fault,
                None => r matches Ok(Plan::Simple(plan)) && plan.mode == mode_of(args.iterations)
                    && is_simple_config(plan.config, args, domains@),
            },
            Command::Phases(args) => match phases_fault(args, domains@) {
                Some(fault) => r matches Err(e) && e@ == fault,
                None => r matches Ok(Plan::Phases(plan)) && plan.mode == mode_of(args.iterations)
                    && is_phases_config(plan.config, args, domains@),
            },
            Command::ListDomains(args) => match socket_filter_fault(
                text_of(args.sockets),
                socket_set(domains@),
            ) {
                Some(fault) => r matches Err(e) && e@ == fault,
                None => r matches Ok(Plan::ListDomains(infos)) && is_listing_of(
                    infos@,
                    domains@,
                    text_of(args.sockets),
                ),
            },
        },
{
    match cli.command {
        Command::Simple(args) => match run_simple(args, domains) {
            Ok(plan) => Ok(Plan::Simple(plan)),
            Err(e) => Err(e),
        },
        Command::Phases(args) => match run_phases(args, domains) {
            Ok(plan) => Ok(Plan::Phases(plan)),
            Err(e) => Err(e),
        },
        Command::ListDomains(args) => match run_list_domains(args, domains) {
            Ok(infos) => Ok(Plan::ListDomains(infos)),
            Err(e) => Err(e),
        },
    }
}

} // verus!
