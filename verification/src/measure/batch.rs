//! Repeating a measurement: a batch of iterations that run one after the
//! other and stop at the first failure.

use vstd::prelude::*;
use crate::config::Config;
use crate::errors::{Failure, JouleProfilerError};
use crate::rapl::domain::RaplDomain;

verus! {

/// A batch of iterations that is under way: the settings and counters of
/// every iteration, how many there are to be, and the results so far,
/// each with the index of its iteration.
///
/// The caller runs iteration [`IterationBatch::next_index`] and hands what
/// became of it to [`IterationBatch::record`], which gives back the batch
/// only as long as there is another iteration to run.
pub struct IterationBatch<'a, R> {
    pub config: &'a Config,
    pub domains: &'a [RaplDomain],
    pub total: usize,
    pub done: Vec<(usize, R)>,
}

/// What a batch has come to when an iteration has ended.
pub enum BatchStep<'a, R> {
    /// There is another iteration to run.
    Next(IterationBatch<'a, R>),
    /// Every iteration has succeeded; here are the results in order.
    Finished(Vec<(usize, R)>),
    /// An iteration has failed, and with it the batch.
    Failed(JouleProfilerError),
}

impl<'a, R> IterationBatch<'a, R> {
    /// A batch of `total` iterations of which none has run. A batch of no
    /// iterations is refused.
    pub fn begin(config: &'a Config, domains: &'a [RaplDomain], total: usize) -> (r: Result<
        Self,
        JouleProfilerError,
    >)
        ensures
            total == 0 ==> (r matches Err(e) && e@ == Failure::InvalidIterations(0)),
            total > 0 ==> (r matches Ok(b) && b.config == config && b.domains == domains && b.total
                == total && b.done@ == Seq::<(usize, R)>::empty()),
    {
        if total == 0 {
            return Err(JouleProfilerError::InvalidIterations(0));
        }
        Ok(IterationBatch { config, domains, total, done: Vec::new() })
    }

    /// The index of the iteration that is to run now.
    pub fn next_index(&self) -> (i: usize)
        ensures
            i == self.done@.len(),
    {
        self.done.len()
    }

    /// Takes what became of the iteration that has just run.
    ///
    /// A failure ends the batch: no batch is handed back, so no further
    /// iteration can be asked for, and the results so far are dropped. A
    /// result is put behind the earlier ones under the index of its
    /// iteration; with the last one the list of results is complete.
    pub fn record(self, outcome: Result<R, JouleProfilerError>) -> (r: BatchStep<'a, R>)
        ensures
            match outcome {
                Err(e) => r == BatchStep::<'a, R>::Failed(e),
                Ok(result) => if self.done@.len() + 1 >= self.total {
                    r matches BatchStep::Finished(all) && all@ == self.done@.push(
                        (self.done@.len() as usize, result),
                    )
                } else {
                    r matches BatchStep::Next(b) && b.config == self.config && b.domains
                        == self.domains && b.total == self.total && b.done@ == self.done@.push(
                        (self.done@.len() as usize, result),
                    )
                },
            },
    {
        match outcome {
            Err(e) => BatchStep::Failed(e),
            Ok(result) => {
                let IterationBatch { config, domains, total, done } = self;
                let mut done = done;
                let index = done.len();
                done.push((index, result));
                if index >= total || total - index <= 1 {
                    BatchStep::Finished(done)
                } else {
                    BatchStep::Next(IterationBatch { config, domains, total, done })
                }
            },
        }
    }
}

} // verus!
