//! One released instance of a task's execution requirement: its work
//! accounting and its lifecycle state machine.

use vstd::prelude::*;

use crate::SchedError;

verus! {

/// Deadline class of a job: how severe missing the deadline is taken to be.
#[derive(Clone, Copy, Debug)]
pub enum Deadline {
    Hard,
    Soft,
    Firm,
}

/// Lifecycle state of one job instance.
#[derive(Clone, Copy, Debug, PartialEq, Eq, Structural)]
pub enum JobStatus {
    NotStarted,
    InProgress,
    Completed,
    Missed,
}

/// Work accounting for one job: the total work it requires and the progress
/// made so far.
#[derive(Clone, Debug)]
pub struct Compuation {
    /// Units of work the job needs before it is complete.
    pub execution_time: usize,
    /// Units of work done so far; grows by one per tick while in progress.
    pub completed_compuation_time: usize,
    /// Lifecycle state driven by the processor.
    pub status: JobStatus,
}

/// The computation after one unit of work: progress grows by one, and the
/// job completes exactly when the required work is reached.
pub open spec fn computation_advanced(c: Compuation) -> Compuation {
    Compuation {
        execution_time: c.execution_time,
        completed_compuation_time: (c.completed_compuation_time + 1) as usize,
        status: if c.completed_compuation_time + 1 >= c.execution_time {
            JobStatus::Completed
        } else {
            c.status
        },
    }
}

/// The computation once its job's deadline has passed: a completed job is
/// left alone, any other is marked missed.
pub open spec fn computation_failed(c: Compuation) -> Compuation {
    if c.status == JobStatus::Completed {
        c
    } else {
        Compuation {
            execution_time: c.execution_time,
            completed_compuation_time: c.completed_compuation_time,
            status: JobStatus::Missed,
        }
    }
}

/// The computation once a processor selects it: only a not-yet-started job
/// moves to in-progress; every other state is left alone.
pub open spec fn computation_started(c: Compuation) -> Compuation {
    if c.status == JobStatus::NotStarted {
        Compuation {
            execution_time: c.execution_time,
            completed_compuation_time: c.completed_compuation_time,
            status: JobStatus::InProgress,
        }
    } else {
        c
    }
}

impl Compuation {
    /// Well-formedness kept by every operation: progress never exceeds the
    /// required work, and the completed state holds exactly when it is reached.
    pub open spec fn wf(self) -> bool {
        &&& 1 <= self.execution_time
        &&& self.completed_compuation_time <= self.execution_time
        &&& (self.status == JobStatus::Completed <==> self.completed_compuation_time
            == self.execution_time)
    }

    pub fn new(execution_time: usize) -> (r: Self)
        requires
            1 <= execution_time,
        ensures
            r.wf(),
            r.execution_time == execution_time,
            r.completed_compuation_time == 0,
            r.status == JobStatus::NotStarted,
    {
        Self { execution_time, completed_compuation_time: 0, status: JobStatus::NotStarted }
    }

    pub fn start(&mut self)
        ensures
            *final(self) == computation_started(*old(self)),
    {
        if self.status == JobStatus::NotStarted {
            self.status = JobStatus::InProgress;
        }
    }

    pub fn complete(&mut self)
        requires
            old(self).completed_compuation_time == old(self).execution_time,
        ensures
            *final(self) == (Compuation {
                execution_time: old(self).execution_time,
                completed_compuation_time: old(self).completed_compuation_time,
                status: JobStatus::Completed,
            }),
    {
        self.status = JobStatus::Completed;
    }

    /// One tick of work. Asking a job that is not in progress to compute is a
    /// reported error, never a silent state change.
    pub fn do_computation(&mut self) -> (r: Result<(), SchedError>)
        requires
            old(self).wf(),
        ensures
            final(self).wf(),
            old(self).status == JobStatus::InProgress ==> r == Ok::<(), SchedError>(())
                && *final(self) == computation_advanced(*old(self)),
            old(self).status != JobStatus::InProgress ==> r == Err::<(), SchedError>(
                SchedError::InvalidState,
            ) && *final(self) == *old(self),
    {
        if self.status == JobStatus::InProgress {
            self.completed_compuation_time = self.completed_compuation_time + 1;
            if self.completed_compuation_time >= self.execution_time {
                self.complete();
            }
            Ok(())
        } else {
            Err(SchedError::InvalidState)
        }
    }

    pub fn failed(&mut self)
        ensures
            *final(self) == computation_failed(*old(self)),
    {
        if self.status != JobStatus::Completed {
            self.status = JobStatus::Missed;
        }
    }
}

/// One released job instance: identity, timing, and its computation.
#[derive(Clone, Debug)]
pub struct Job {
    /// Identifier, unique within the owning task.
    pub id: usize,
    /// Work accounting and lifecycle state.
    pub computation: Compuation,
    /// Deadline class of the job.
    pub deadline_type: Deadline,
    /// Latest tick at which the job may still complete; set by the owning task.
    pub absolute_deadline: Option<usize>,
    /// Tick at which the job becomes available; set by the owning task.
    pub release_time: Option<usize>,
    /// One-based sequence number within the owning task.
    pub instance: Option<usize>,
}

/// The job after a processor selects it.
pub open spec fn job_started(j: Job) -> Job {
    Job { computation: computation_started(j.computation), ..j }
}

/// The job after one unit of work.
pub open spec fn job_advanced(j: Job) -> Job {
    Job { computation: computation_advanced(j.computation), ..j }
}

/// The job once its deadline has passed without completion.
pub open spec fn job_missed(j: Job) -> Job {
    Job { computation: computation_failed(j.computation), ..j }
}

/// The job after one tick of work if it is in progress, unchanged otherwise.
pub open spec fn job_ticked(j: Job) -> Job {
    if j.computation.status == JobStatus::InProgress {
        job_advanced(j)
    } else {
        j
    }
}

/// The job after a deadline check at `current_time`: if its absolute deadline
/// is set, has been reached, and the job is not complete, it is missed.
pub open spec fn job_checked(j: Job, current_time: usize) -> Job {
    match j.absolute_deadline {
        Some(d) => if current_time >= d {
            job_missed(j)
        } else {
            j
        },
        None => j,
    }
}

impl Job {
    /// Well-formedness of the job's computation, kept by every operation.
    pub open spec fn wf(self) -> bool {
        self.computation.wf()
    }

    pub fn new(id: usize, execution_time: usize, deadline_type: Deadline) -> (r: Self)
        requires
            1 <= execution_time,
        ensures
            r.wf(),
            r.id == id,
            r.computation.execution_time == execution_time,
            r.computation.completed_compuation_time == 0,
            r.computation.status == JobStatus::NotStarted,
            r.deadline_type == deadline_type,
            r.absolute_deadline is None,
            r.release_time is None,
            r.instance is None,
    {
        Self {
            id,
            computation: Compuation::new(execution_time),
            deadline_type,
            absolute_deadline: None,
            release_time: None,
            instance: None,
        }
    }

    /// Once set, the absolute deadline is immutable.
    pub fn set_absolute_deadline(&mut self, absolute_deadline: usize)
        requires
            old(self).absolute_deadline is None,
        ensures
            *final(self) == (Job { absolute_deadline: Some(absolute_deadline), ..*old(self) }),
    {
        self.absolute_deadline = Some(absolute_deadline);
    }

    /// Once set, the release time is immutable.
    pub fn set_release_time(&mut self, release_time: usize)
        requires
            old(self).release_time is None,
        ensures
            *final(self) == (Job { release_time: Some(release_time), ..*old(self) }),
    {
        self.release_time = Some(release_time);
    }

    /// Once set, the instance number is immutable.
    pub fn set_instance(&mut self, instance: usize)
        requires
            old(self).instance is None,
        ensures
            *final(self) == (Job { instance: Some(instance), ..*old(self) }),
    {
        self.instance = Some(instance);
    }

    pub fn start(&mut self)
        ensures
            *final(self) == job_started(*old(self)),
    {
        self.computation.start();
    }

    pub fn complete(&mut self)
        requires
            old(self).computation.completed_compuation_time
                == old(self).computation.execution_time,
        ensures
            *final(self) == (Job {
                computation: Compuation {
                    execution_time: old(self).computation.execution_time,
                    completed_compuation_time: old(self).computation.completed_compuation_time,
                    status: JobStatus::Completed,
                },
                ..*old(self)
            }),
    {
        self.computation.complete();
    }

    /// One tick of work if the job is in progress; a silent no-op otherwise.
    pub fn do_computation(&mut self)
        requires
            old(self).wf(),
        ensures
            final(self).wf(),
            *final(self) == job_ticked(*old(self)),
    {
        if self.computation.status == JobStatus::InProgress {
            let r = self.computation.do_computation();
            match r {
                Ok(_) => {},
                Err(_) => {},
            }
        }
    }

    /// Record that the job's deadline has passed: a completed job is left
    /// alone, any other becomes missed.
    pub fn resolve_deadline(&mut self)
        ensures
            *final(self) == job_missed(*old(self)),
    {
        self.computation.failed();
    }

    /// One tick of work. Asking a job that is not in progress to compute is a
    /// reported error.
    pub fn advance_job_time(&mut self) -> (r: Result<(), SchedError>)
        requires
            old(self).wf(),
        ensures
            final(self).wf(),
            old(self).computation.status == JobStatus::InProgress ==> r == Ok::<(), SchedError>(())
                && *final(self) == job_advanced(*old(self)),
            old(self).computation.status != JobStatus::InProgress ==> r == Err::<(), SchedError>(
                SchedError::InvalidState,
            ) && *final(self) == *old(self),
    {
        self.computation.do_computation()
    }

    /// Mark the job missed if its deadline is set, has been reached, and the
    /// job is not complete. Idempotent once the job is terminal.
    pub fn check_deadline(&mut self, current_time: usize)
        ensures
            *final(self) == job_checked(*old(self), current_time),
    {
        match self.absolute_deadline {
            Some(d) => {
                if current_time >= d {
                    self.resolve_deadline();
                }
            },
            None => {},
        }
    }

    /// A field-for-field copy whose value verified callers can rely on.
    pub fn duplicate(&self) -> (r: Job)
        ensures
            r == *self,
    {
        Job {
            id: self.id,
            computation: Compuation {
                execution_time: self.computation.execution_time,
                completed_compuation_time: self.computation.completed_compuation_time,
                status: self.computation.status,
            },
            deadline_type: self.deadline_type,
            absolute_deadline: self.absolute_deadline,
            release_time: self.release_time,
            instance: self.instance,
        }
    }
}

} // verus!
