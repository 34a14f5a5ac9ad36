//! One plain measurement: a snapshot, the command, a snapshot.

use vstd::prelude::*;
use crate::config::Config;
use crate::counter_map::CounterMap;
use crate::errors::{Failure, JouleProfilerError};
use crate::measure::common::{
    build_max_map,
    compute_measurement_from_snapshots,
    max_ranges,
    measured_energy,
    MeasurementResult,
};
use crate::rapl::domain::{domains_on, select_domains, RaplDomain};
use crate::rapl::snapshot::EnergySnapshot;

verus! {

/// How far a plain measurement has come.
pub enum MeasureStage {
    /// The snapshot before the command is awaited.
    AwaitBegin,
    /// The command runs; the snapshot before it is kept.
    Running(EnergySnapshot),
    /// The snapshot behind the command is awaited.
    AwaitEnd { begin: EnergySnapshot, exit_code: i32, duration_ms: u128 },
}

/// What the caller is to do next.
#[derive(Debug, Clone, Copy, PartialEq, Eq, Structural)]
pub enum MeasureRequest {
    /// Read all counters of the run and hand back the snapshot.
    ReadSnapshot,
    /// Run the command to its end and hand back how it ended.
    RunCommand,
}

/// What the caller has done.
pub enum MeasureEvent {
    /// The counters were read.
    Snapshot(EnergySnapshot),
    /// The command has ended: with its exit code, if it ended by itself,
    /// and the time it took in milliseconds.
    Exited { code: Option<i32>, duration_ms: u128 },
    /// What was asked for could not be done.
    Failed(JouleProfilerError),
}

/// A plain measurement that is under way: the counters it reads, their
/// ranges, and how far it has come.
pub struct MeasureRun<'a> {
    pub domains: Vec<&'a RaplDomain>,
    pub max_map: CounterMap,
    pub stage: MeasureStage,
}

/// What a measurement has come to when an event has been taken in.
pub enum MeasureStep<'a> {
    /// The measurement goes on.
    Continue(MeasureRun<'a>),
    /// The measurement is complete.
    Finished(MeasurementResult),
    /// The measurement has failed.
    Failed(JouleProfilerError),
}

/// The exit code reported for a command: its own, or 1 where it was ended
/// by a signal and has none.
pub open spec fn exit_code_of(code: Option<i32>) -> i32 {
    match code {
        Some(c) => c,
        None => 1,
    }
}

/// The exit code reported for a command.
pub fn reported_exit_code(code: Option<i32>) -> (c: i32)
    ensures
        c == exit_code_of(code),
{
    match code {
        Some(c) => c,
        None => 1,
    }
}

/// What the caller is to do at `stage`.
pub open spec fn measure_request_at(stage: MeasureStage) -> MeasureRequest {
    match stage {
        MeasureStage::AwaitBegin => MeasureRequest::ReadSnapshot,
        MeasureStage::Running(_) => MeasureRequest::RunCommand,
        MeasureStage::AwaitEnd { .. } => MeasureRequest::ReadSnapshot,
    }
}

/// Whether `step` is what `run` comes to by `event`.
///
/// A failure ends the run. The first snapshot is kept and the command is
/// asked for; the command's end is kept and the second snapshot is asked
/// for; the second snapshot completes the measurement. An event that does
/// not answer the request of the stage changes nothing.
pub open spec fn measure_follows(run: MeasureRun, event: MeasureEvent, step: MeasureStep) -> bool {
    match event {
        MeasureEvent::Failed(e) => step == MeasureStep::Failed(e),
        MeasureEvent::Snapshot(s) => match run.stage {
            MeasureStage::AwaitBegin => step == MeasureStep::Continue(
                MeasureRun {
                    domains: run.domains,
                    max_map: run.max_map,
                    stage: MeasureStage::Running(s),
                },
            ),
            MeasureStage::Running(_) => step == MeasureStep::Continue(run),
            MeasureStage::AwaitEnd { begin, exit_code, duration_ms } => match measured_energy(
                run.domains@,
                run.max_map@,
                begin.energies_uj@,
                s.energies_uj@,
            ) {
                Ok(energy) => step matches MeasureStep::Finished(m) && m.energy_uj@ == energy
                    && m.duration_ms == duration_ms && m.exit_code == exit_code,
                Err(fault) => step matches MeasureStep::Failed(e) && e@ == fault,
            },
        },
        MeasureEvent::Exited { code, duration_ms } => match run.stage {
            MeasureStage::Running(begin) => step == MeasureStep::Continue(
                MeasureRun {
                    domains: run.domains,
                    max_map: run.max_map,
                    stage: MeasureStage::AwaitEnd {
                        begin,
                        exit_code: exit_code_of(code),
                        duration_ms,
                    },
                },
            ),
            _ => step == MeasureStep::Continue(run),
        },
    }
}

/// Prepares one plain measurement of the command of `config` on the
/// counters of `domains` that belong to the sockets of `config`.
///
/// Nothing is read and nothing is run here. A run with no command, or
/// with no counter on the chosen sockets, is refused.
pub fn measure_once<'a>(config: &Config, domains: &'a [RaplDomain]) -> (r: Result<
    MeasureRun<'a>,
    JouleProfilerError,
>)
    ensures
        config.cmd@.len() == 0 ==> (r matches Err(e) && e@ == Failure::NoCommand),
        config.cmd@.len() > 0 && domains_on(domains@, config.sockets@).len() == 0 ==> (
        r matches Err(e) && e@ == Failure::NoDomains),
        config.cmd@.len() > 0 && domains_on(domains@, config.sockets@).len() > 0 ==> (
        r matches Ok(run) && run.domains@ == domains_on(domains@, config.sockets@) && run.max_map@
            == max_ranges(run.domains@) && run.stage == MeasureStage::AwaitBegin),
{
    if config.cmd.len() == 0 {
        return Err(JouleProfilerError::NoCommand);
    }
    let filtered = select_domains(domains, &config.sockets);
    if filtered.len() == 0 {
        return Err(JouleProfilerError::NoDomains);
    }
    let max_map = build_max_map(filtered.as_slice());
    Ok(MeasureRun { domains: filtered, max_map, stage: MeasureStage::AwaitBegin })
}

impl<'a> MeasureRun<'a> {
    /// What the caller is to do next.
    pub fn request(&self) -> (r: MeasureRequest)
        ensures
            r == measure_request_at(self.stage),
    {
        match &self.stage {
            MeasureStage::AwaitBegin => MeasureRequest::ReadSnapshot,
            MeasureStage::Running(_) => MeasureRequest::RunCommand,
            MeasureStage::AwaitEnd { .. } => MeasureRequest::ReadSnapshot,
        }
    }

    /// Takes in what the caller has done.
    pub fn advance(self, event: MeasureEvent) -> (step: MeasureStep<'a>)
        ensures
            measure_follows(self, event, step),
    {
        let MeasureRun { domains, max_map, stage } = self;
        match event {
            MeasureEvent::Failed(e) => MeasureStep::Failed(e),
            MeasureEvent::Snapshot(s) => match stage {
                MeasureStage::AwaitBegin => MeasureStep::Continue(
                    MeasureRun { domains, max_map, stage: MeasureStage::Running(s) },
                ),
                MeasureStage::Running(begin) => MeasureStep::Continue(
                    MeasureRun { domains, max_map, stage: MeasureStage::Running(begin) },
                ),
                MeasureStage::AwaitEnd { begin, exit_code, duration_ms } => {
                    match compute_measurement_from_snapshots(
                        domains.as_slice(),
                        &max_map,
                        &begin,
                        &s,
                        duration_ms,
                        exit_code,
                    ) {
                        Ok(m) => MeasureStep::Finished(m),
                        Err(e) => MeasureStep::Failed(e),
                    }
                },
            },
            MeasureEvent::Exited { code, duration_ms } => match stage {
                MeasureStage::Running(begin) => MeasureStep::Continue(
                    MeasureRun {
                        domains,
                        max_map,
                        stage: MeasureStage::AwaitEnd {
                            begin,
                            exit_code: reported_exit_code(code),
                            duration_ms,
                        },
                    },
                ),
                MeasureStage::AwaitBegin => MeasureStep::Continue(
                    MeasureRun { domains, max_map, stage: MeasureStage::AwaitBegin },
                ),
                MeasureStage::AwaitEnd { begin, exit_code, duration_ms: earlier } => {
                    MeasureStep::Continue(
                        MeasureRun {
                            domains,
                            max_map,
                            stage: MeasureStage::AwaitEnd { begin, exit_code, duration_ms: earlier },
                        },
                    )
                },
            },
        }
    }
}

} // verus!
