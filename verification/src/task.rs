//! A periodic task: the timing parameters of a recurring execution
//! requirement, and the generator of its job instances.

use vstd::arithmetic::mul::lemma_mul_inequality;
use vstd::prelude::*;

use crate::job::{Deadline, Job, JobStatus};
use crate::rng::sample_uniform;
use crate::SchedError;

verus! {

/// The conditions under which a task's timing parameters are accepted:
/// a positive best-case execution time no larger than the worst case, a
/// worst case that fits within the relative deadline, and a positive period.
pub open spec fn valid_task_params(
    worst_case_execution_time: usize,
    best_case_execution_time: usize,
    relative_deadline: usize,
    period: usize,
) -> bool {
    &&& 1 <= best_case_execution_time
    &&& best_case_execution_time <= worst_case_execution_time
    &&& worst_case_execution_time <= relative_deadline
    &&& 1 <= period
}

/// A periodic task; priority is the task's position in the task list.
#[derive(Clone, Debug)]
pub struct Task {
    /// Identifier, unique within the task set.
    pub id: usize,
    /// Largest amount of work one of its jobs may require.
    pub worst_case_execution_time: usize,
    /// Smallest amount of work one of its jobs may require.
    pub best_case_execution_time: usize,
    /// Time allowed to each job after its release.
    pub relative_deadline: usize,
    /// Spacing between successive releases.
    pub period: usize,
    /// Release offset of the first job.
    pub phase: usize,
    /// The generated job instances; populated by replacement, never by merge.
    pub jobs: Option<Vec<Job>>,
}

/// The generated job sequence of a task; meaningful when `jobs` is set.
pub open spec fn task_jobs(t: Task) -> Seq<Job> {
    t.jobs->Some_0@
}

impl Task {
    /// The task's timing parameters were accepted at construction.
    pub open spec fn params_ok(self) -> bool {
        valid_task_params(
            self.worst_case_execution_time,
            self.best_case_execution_time,
            self.relative_deadline,
            self.period,
        )
    }

    /// What the generator guarantees of the job stored at (zero-based)
    /// position `k`: instance number `k + 1`, a release every `period`
    /// ticks starting at `phase`, an absolute deadline one relative
    /// deadline after the release, and an execution time between the
    /// best and the worst case. All of it free of overflow.
    pub open spec fn generated_job_ok(self, j: Job, k: int) -> bool {
        &&& j.wf()
        &&& j.id == k + 1
        &&& j.instance == Some((k + 1) as usize)
        &&& j.computation.status == JobStatus::NotStarted
        &&& j.computation.completed_compuation_time == 0
        &&& self.best_case_execution_time <= j.computation.execution_time
            <= self.worst_case_execution_time
        &&& self.phase + self.period * k + self.relative_deadline <= usize::MAX
        &&& j.release_time == Some((self.phase + self.period * k) as usize)
        &&& j.absolute_deadline == Some(
            (self.phase + self.period * k + self.relative_deadline) as usize,
        )
    }

    /// Every stored job has the shape the generator gives it.
    pub open spec fn jobs_generated(self) -> bool {
        self.jobs matches Some(js) ==> forall|k: int|
            0 <= k < js@.len() ==> self.generated_job_ok(js@[k], k)
    }

    /// Well-formedness kept by every operation.
    pub open spec fn wf(self) -> bool {
        self.params_ok() && self.jobs_generated()
    }

    /// Construction validates the timing parameters; invalid ones are
    /// rejected, never silently clamped.
    pub fn new(
        id: usize,
        worst_case_execution_time: usize,
        best_case_execution_time: usize,
        relative_deadline: usize,
        period: usize,
    ) -> (r: Result<Self, SchedError>)
        ensures
            valid_task_params(
                worst_case_execution_time,
                best_case_execution_time,
                relative_deadline,
                period,
            ) ==> (r matches Ok(t) && t == (Task {
                id,
                worst_case_execution_time,
                best_case_execution_time,
                relative_deadline,
                period,
                phase: 0,
                jobs: None::<Vec<Job>>,
            })),
            !valid_task_params(
                worst_case_execution_time,
                best_case_execution_time,
                relative_deadline,
                period,
            ) ==> r == Err::<Self, SchedError>(SchedError::InvalidParameters),
    {
        if 1 <= best_case_execution_time && best_case_execution_time <= worst_case_execution_time
            && worst_case_execution_time <= relative_deadline && 1 <= period {
            Ok(
                Self {
                    id,
                    worst_case_execution_time,
                    best_case_execution_time,
                    relative_deadline,
                    period,
                    phase: 0,
                    jobs: None,
                },
            )
        } else {
            Err(SchedError::InvalidParameters)
        }
    }

    /// Release time of a job from its instance number: the phase plus one
    /// period per earlier instance. A job without an instance number is
    /// reported, not tolerated.
    pub fn calculate_release_time_for_job(&self, job: &mut Job) -> (r: Result<(), SchedError>)
        requires
            old(job).release_time is None,
            old(job).instance matches Some(k) ==> 1 <= k && self.phase + self.period * (k - 1)
                <= usize::MAX,
        ensures
            old(job).instance matches Some(k) ==> r == Ok::<(), SchedError>(()) && *final(job)
                == (Job {
                release_time: Some((self.phase + self.period * (k - 1)) as usize),
                ..*old(job)
            }),
            old(job).instance is None ==> r == Err::<(), SchedError>(SchedError::UninstancedJob)
                && *final(job) == *old(job),
    {
        match job.instance {
            Some(instance) => {
                job.set_release_time(self.phase + self.period * (instance - 1));
                Ok(())
            },
            None => Err(SchedError::UninstancedJob),
        }
    }

    /// Absolute deadline of a job: its release time plus the relative
    /// deadline. The release time must have been computed first; a job
    /// without one is reported, not tolerated.
    pub fn calculate_absolute_deadline_for_job(&self, job: &mut Job) -> (r: Result<
        (),
        SchedError,
    >)
        requires
            old(job).absolute_deadline is None,
            old(job).release_time matches Some(rt) ==> rt + self.relative_deadline <= usize::MAX,
        ensures
            old(job).release_time matches Some(rt) ==> r == Ok::<(), SchedError>(()) && *final(job)
                == (Job {
                absolute_deadline: Some((rt + self.relative_deadline) as usize),
                ..*old(job)
            }),
            old(job).release_time is None ==> r == Err::<(), SchedError>(SchedError::UninstancedJob)
                && *final(job) == *old(job),
    {
        match job.release_time {
            Some(release_time) => {
                job.set_absolute_deadline(release_time + self.relative_deadline);
                Ok(())
            },
            None => Err(SchedError::UninstancedJob),
        }
    }

    /// An execution time drawn uniformly from the closed interval between
    /// the best and the worst case.
    pub fn get_random_execution_time(&self) -> (r: usize)
        requires
            self.params_ok(),
        ensures
            self.best_case_execution_time <= r <= self.worst_case_execution_time,
    {
        sample_uniform(self.best_case_execution_time, self.worst_case_execution_time)
    }

    /// Populate the task's job sequence with `num_jobs` fresh instances,
    /// replacing any prior sequence. Instance `k` (one-based) is released
    /// at `phase + period * (k - 1)` and must complete within the relative
    /// deadline; its execution time is drawn between the best and the worst
    /// case.
    #[verifier::rlimit(30)]
    pub fn randomly_generate_jobs(&mut self, num_jobs: usize)
        requires
            old(self).params_ok(),
            num_jobs >= 1 ==> old(self).phase + old(self).period * (num_jobs - 1) + old(
                self,
            ).relative_deadline <= usize::MAX,
        ensures
            final(self).id == old(self).id,
            final(self).worst_case_execution_time == old(self).worst_case_execution_time,
            final(self).best_case_execution_time == old(self).best_case_execution_time,
            final(self).relative_deadline == old(self).relative_deadline,
            final(self).period == old(self).period,
            final(self).phase == old(self).phase,
            final(self).jobs is Some,
            task_jobs(*final(self)).len() == num_jobs,
            forall|k: int|
                0 <= k < num_jobs ==> final(self).generated_job_ok(task_jobs(*final(self))[k], k),
            final(self).wf(),
            // successive releases are strictly increasing, spaced by exactly one period
            forall|k: int|
                #![trigger task_jobs(*final(self))[k]]
                1 <= k < num_jobs ==> task_jobs(*final(self))[k].release_time->Some_0 == task_jobs(
                    *final(self),
                )[k - 1].release_time->Some_0 + old(self).period,
    {
        let ghost t0 = *old(self);
        let mut jobs: Vec<Job> = Vec::new();
        let mut k: usize = 0;
        while k < num_jobs
            invariant
                *self == t0,
                t0.params_ok(),
                num_jobs >= 1 ==> t0.phase + t0.period * (num_jobs - 1) + t0.relative_deadline
                    <= usize::MAX,
                k <= num_jobs,
                jobs@.len() == k,
                forall|i: int| 0 <= i < k ==> t0.generated_job_ok(jobs@[i], i),
            decreases num_jobs - k,
        {
            proof {
                lemma_mul_inequality(k as int, num_jobs - 1, t0.period as int);
                assert((k as int) * (t0.period as int) == t0.period as int * (k as int))
                    by (nonlinear_arith);
                assert((num_jobs - 1) * (t0.period as int) == t0.period as int * (num_jobs - 1))
                    by (nonlinear_arith);
                assert(t0.phase + t0.period * (k as int) + t0.relative_deadline <= usize::MAX);
            }
            let instance = k + 1;
            let execution_time = self.get_random_execution_time();
            let mut job = Job::new(instance, execution_time, Deadline::Hard);
            job.set_instance(instance);
            let release_result = self.calculate_release_time_for_job(&mut job);
            match release_result {
                Ok(_) => {},
                Err(_) => {},
            }
            let deadline_result = self.calculate_absolute_deadline_for_job(&mut job);
            match deadline_result {
                Ok(_) => {},
                Err(_) => {},
            }
            proof {
                assert(t0.generated_job_ok(job, k as int));
            }
            jobs.push(job);
            k = k + 1;
        }
        self.jobs = Some(jobs);
        proof {
            assert forall|i: int|
                #![trigger task_jobs(*self)[i]]
                1 <= i < num_jobs implies task_jobs(*self)[i].release_time->Some_0 == task_jobs(
                *self,
            )[i - 1].release_time->Some_0 + t0.period by {
                assert(t0.period * i == t0.period * (i - 1) + t0.period) by (nonlinear_arith);
            }
        }
    }

    /// The stored job with the given identifier, if any; the first match in
    /// sequence order.
    pub fn get_job_by_id(&self, id: usize) -> (r: Option<&Job>)
        ensures
            match r {
                Some(j) => self.jobs is Some && exists|i: int|
                    0 <= i < task_jobs(*self).len() && task_jobs(*self)[i] == *j && j.id == id && (
                    forall|m: int| 0 <= m < i ==> task_jobs(*self)[m].id != id),
                None => self.jobs is None || forall|i: int|
                    0 <= i < task_jobs(*self).len() ==> task_jobs(*self)[i].id != id,
            },
    {
        match &self.jobs {
            Some(js) => {
                let n = js.len();
                let mut i: usize = 0;
                while i < n
                    invariant
                        i <= n,
                        n == js@.len(),
                        js@ == task_jobs(*self),
                        self.jobs is Some,
                        forall|m: int| 0 <= m < i ==> js@[m].id != id,
                    decreases n - i,
                {
                    if js[i].id == id {
                        return Some(&js[i]);
                    }
                    i = i + 1;
                }
                None
            },
            None => None,
        }
    }

    /// The stored job with the given instance number, if any; the first
    /// match in sequence order.
    pub fn get_job_by_instance(&self, instance: usize) -> (r: Option<&Job>)
        ensures
            match r {
                Some(j) => self.jobs is Some && exists|i: int|
                    0 <= i < task_jobs(*self).len() && task_jobs(*self)[i] == *j && j.instance
                        == Some(instance) && (forall|m: int|
                        0 <= m < i ==> task_jobs(*self)[m].instance != Some(instance)),
                None => self.jobs is None || forall|i: int|
                    0 <= i < task_jobs(*self).len() ==> task_jobs(*self)[i].instance != Some(
                        instance,
                    ),
            },
    {
        match &self.jobs {
            Some(js) => {
                let n = js.len();
                let mut i: usize = 0;
                while i < n
                    invariant
                        i <= n,
                        n == js@.len(),
                        js@ == task_jobs(*self),
                        self.jobs is Some,
                        forall|m: int| 0 <= m < i ==> js@[m].instance != Some(instance),
                    decreases n - i,
                {
                    let found = match js[i].instance {
                        Some(x) => x == instance,
                        None => false,
                    };
                    if found {
                        return Some(&js[i]);
                    }
                    i = i + 1;
                }
                None
            },
            None => None,
        }
    }
}

} // verus!
