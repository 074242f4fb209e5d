use vstd::prelude::*;

verus! {

/// Why applying a plan stopped.
#[derive(Debug)]
pub enum ApplyError {
    /// A rendered statement failed at the database.
    Exec {
        /// The position of the step that failed.
        failed_step: usize,
        /// How many steps before it are committed: none where the plan ran in
        /// one transaction, which the failure rolled back; all of them otherwise.
        committed_steps: usize,
        /// The database's own words.
        message: String,
    },
}

/// The progress of applying an ordered plan, one statement at a time.
///
/// The caller asks for the next step, runs it and records the result; the
/// first failure ends the run. Applying never runs steps concurrently.
pub struct ApplyRun {
    pub total: usize,
    pub transactional: bool,
    /// How many steps ran successfully so far.
    pub done: usize,
    /// The first failure: the step's position and the database's message.
    pub failure: Option<(usize, String)>,
}

impl ApplyRun {
    pub open spec fn wf(&self) -> bool {
        &&& self.done <= self.total
        &&& match self.failure {
            Some((i, _)) => i == self.done && i < self.total,
            None => true,
        }
    }

    /// A run of `total` steps, inside one transaction where the dialect
    /// supports transactional DDL.
    pub fn new(total: usize, transactional: bool) -> (r: ApplyRun)
        ensures
            r.wf(),
            r.total == total,
            r.transactional == transactional,
            r.done == 0,
            r.failure is None,
    {
        ApplyRun { total, transactional, done: 0, failure: None }
    }

    /// The position of the step to run next, if any is left to run.
    pub fn next_step(&self) -> (r: Option<usize>)
        requires
            self.wf(),
        ensures
            r == (if self.failure is None && self.done < self.total { Some(self.done) } else { None::<usize> }),
    {
        if self.failure.is_none() && self.done < self.total {
            Some(self.done)
        } else {
            None
        }
    }

    /// Records the result of the step that `next_step` gave.
    pub fn record(&mut self, result: Result<(), String>)
        requires
            old(self).wf(),
            old(self).failure is None,
            old(self).done < old(self).total,
        ensures
            final(self).wf(),
            final(self).total == old(self).total,
            final(self).transactional == old(self).transactional,
            match result {
                Ok(()) => final(self).done == old(self).done + 1 && final(self).failure is None,
                Err(m) => final(self).done == old(self).done && final(self).failure == Some((old(self).done, m)),
            },
    {
        match result {
            Ok(()) => {
                self.done = self.done + 1;
            },
            Err(m) => {
                self.failure = Some((self.done, m));
            },
        }
    }

    /// The outcome of a finished run.
    pub fn outcome(self) -> (r: Result<(), ApplyError>)
        requires
            self.wf(),
            self.failure is Some || self.done == self.total,
        ensures
            match self.failure {
                None => r is Ok,
                Some((i, m)) => r == Err::<(), ApplyError>(ApplyError::Exec {
                    failed_step: i,
                    committed_steps: if self.transactional { 0 } else { i },
                    message: m,
                }),
            },
    {
        match self.failure {
            None => Ok(()),
            Some((i, m)) => Err(ApplyError::Exec {
                failed_step: i,
                committed_steps: if self.transactional { 0 } else { i },
                message: m,
            }),
        }
    }
}

} // verus!
