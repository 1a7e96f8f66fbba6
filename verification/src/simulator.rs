//! The simulation driver: it owns the task set and the processor, releases
//! generated jobs at their release times, and advances the processor one
//! tick at a time until the horizon is reached.

use vstd::prelude::*;

use crate::analysis::{all_params_ok, response_time_for_task, task_schedulable};
use crate::job::{Job, JobStatus};
use crate::process::{add_job_spec, advance_spec, ProcModel, ProcessorUnit};
use crate::rng::sample_uniform;
use crate::task::{task_jobs, Task};
use crate::SchedError;

verus! {

/// The jobs among the first `n` stored jobs that are due for release at
/// `time`, in stored order.
pub open spec fn released_prefix(jobs: Seq<Job>, n: int, time: usize) -> Seq<Job>
    decreases n,
{
    if n <= 0 {
        Seq::empty()
    } else if jobs[n - 1].release_time == Some(time) {
        released_prefix(jobs, n - 1, time).push(jobs[n - 1])
    } else {
        released_prefix(jobs, n - 1, time)
    }
}

/// The jobs of one task due for release at `time`.
pub open spec fn released_of_task(t: Task, time: usize) -> Seq<Job> {
    match t.jobs {
        Some(js) => released_prefix(js@, js@.len() as int, time),
        None => Seq::empty(),
    }
}

/// The jobs of the first `n` tasks due for release at `time`: tasks in
/// priority order, and within a task in stored order.
pub open spec fn released_at(tasks: Seq<Task>, n: int, time: usize) -> Seq<Job>
    decreases n,
{
    if n <= 0 {
        Seq::empty()
    } else {
        released_at(tasks, n - 1, time) + released_of_task(tasks[n - 1], time)
    }
}

/// The processor state after handing it the first `n` of the given jobs in
/// order.
pub open spec fn add_jobs_spec(p: ProcModel, js: Seq<Job>, n: int) -> ProcModel
    decreases n,
{
    if n <= 0 {
        p
    } else {
        add_job_spec(add_jobs_spec(p, js, n - 1), js[n - 1])
    }
}

/// One simulated tick at `time`: release every job due now into the
/// processor, then advance the processor.
pub open spec fn sim_tick(tasks: Seq<Task>, p: ProcModel, time: usize) -> ProcModel {
    let due = released_at(tasks, tasks.len() as int, time);
    advance_spec(add_jobs_spec(p, due, due.len() as int), time)
}

/// The processor state after simulating from tick `t` up to (excluding) the
/// horizon.
pub open spec fn sim_from(tasks: Seq<Task>, p: ProcModel, t: usize, horizon: usize) -> ProcModel
    decreases horizon - t,
{
    if t >= horizon {
        p
    } else {
        sim_from(tasks, sim_tick(tasks, p, t), (t + 1) as usize, horizon)
    }
}

/// The simulator's configuration and mutable state.
#[derive(Debug)]
pub struct SimulatorVariables {
    /// How many tasks the generator is asked for.
    pub number_of_tasks: usize,
    /// How many job instances each task generates.
    pub number_of_tasks_per_cycle: usize,
    /// The horizon: the first tick that is not simulated.
    pub maximum_time_to_run: usize,
    /// The current tick, starting at zero.
    pub current_time: usize,
    /// The task set, in priority order (earlier is higher).
    pub list_of_tasks: Option<Vec<Task>>,
    /// The single processor of this simulator.
    pub processor: Option<ProcessorUnit>,
}

/// What a run guarantees: it is rejected with `NotReady`, changing nothing,
/// unless a processor is configured and every task has a non-empty
/// generated job sequence; otherwise it folds the tick transition from the
/// starting time up to the horizon over the processor, leaves the task set
/// untouched, and stops with the clock at the horizon.
pub open spec fn run_post(
    pre: SimulatorVariables,
    post: SimulatorVariables,
    r: Result<(), SchedError>,
) -> bool {
    &&& !pre.is_ready_spec() ==> r == Err::<(), SchedError>(SchedError::NotReady) && post == pre
    &&& pre.is_ready_spec() ==> {
        &&& r == Ok::<(), SchedError>(())
        &&& post.number_of_tasks == pre.number_of_tasks
        &&& post.number_of_tasks_per_cycle == pre.number_of_tasks_per_cycle
        &&& post.maximum_time_to_run == pre.maximum_time_to_run
        &&& post.list_of_tasks == pre.list_of_tasks
        &&& post.current_time == (if pre.current_time < pre.maximum_time_to_run {
            pre.maximum_time_to_run
        } else {
            pre.current_time
        })
        &&& post.processor matches Some(proc) && proc@ == sim_from(
            pre.list_of_tasks->Some_0@,
            pre.processor->Some_0@,
            pre.current_time,
            pre.maximum_time_to_run,
        ) && proc.id == pre.processor->Some_0.id && proc.clock_period
            == pre.processor->Some_0.clock_period
        &&& post.wf()
    }
}

impl SimulatorVariables {
    /// Every stored task is well-formed.
    pub open spec fn tasks_wf(self) -> bool {
        self.list_of_tasks matches Some(ts) ==> forall|i: int|
            0 <= i < ts@.len() ==> (#[trigger] ts@[i]).wf()
    }

    /// Well-formedness kept by every operation.
    pub open spec fn wf(self) -> bool {
        &&& self.tasks_wf()
        &&& (self.processor matches Some(p) ==> p.wf())
    }

    /// Ready to run: a processor is configured and every task has a
    /// non-empty generated job sequence.
    pub open spec fn is_ready_spec(self) -> bool {
        self.processor is Some && match self.list_of_tasks {
            Some(ts) => forall|i: int|
                0 <= i < ts@.len() ==> (#[trigger] ts@[i]).jobs is Some && task_jobs(ts@[i]).len()
                    > 0,
            None => false,
        }
    }

    pub fn new(
        number_of_tasks: usize,
        number_of_tasks_per_cycle: usize,
        maximum_time_to_run: usize,
    ) -> (r: Self)
        ensures
            r == (SimulatorVariables {
                number_of_tasks,
                number_of_tasks_per_cycle,
                maximum_time_to_run,
                current_time: 0,
                list_of_tasks: None::<Vec<Task>>,
                processor: None::<ProcessorUnit>,
            }),
            r.wf(),
    {
        Self {
            number_of_tasks,
            number_of_tasks_per_cycle,
            maximum_time_to_run,
            current_time: 0,
            list_of_tasks: None,
            processor: None,
        }
    }

    /// Install the task set; priority order is the order of the list.
    pub fn set_list_of_tasks(&mut self, list_of_tasks: Vec<Task>)
        requires
            forall|i: int| 0 <= i < list_of_tasks@.len() ==> (#[trigger] list_of_tasks@[i]).wf(),
        ensures
            *final(self) == (SimulatorVariables {
                list_of_tasks: Some(list_of_tasks),
                ..*old(self)
            }),
            old(self).wf() ==> final(self).wf(),
    {
        self.list_of_tasks = Some(list_of_tasks);
    }

    /// Configure the single processor.
    pub fn setup_processor(&mut self, id: usize, clock_period: usize)
        ensures
            final(self).processor matches Some(p) && p.id == id && p.clock_period == clock_period
                && p@ == (ProcModel {
                blocked: false,
                active: None::<Job>,
                queue: Seq::<Job>::empty(),
                history: Seq::<Job>::empty(),
            }),
            final(self).number_of_tasks == old(self).number_of_tasks,
            final(self).number_of_tasks_per_cycle == old(self).number_of_tasks_per_cycle,
            final(self).maximum_time_to_run == old(self).maximum_time_to_run,
            final(self).current_time == old(self).current_time,
            final(self).list_of_tasks == old(self).list_of_tasks,
            old(self).wf() ==> final(self).wf(),
    {
        self.processor = Some(ProcessorUnit::new(id, clock_period));
    }

    fn advance_time(&mut self)
        requires
            old(self).current_time < usize::MAX,
        ensures
            *final(self) == (SimulatorVariables {
                current_time: (old(self).current_time + 1) as usize,
                ..*old(self)
            }),
    {
        self.current_time = self.current_time + 1;
    }

    /// All jobs due for release at the current tick, as fresh copies, in
    /// priority order and within a task in stored order.
    pub fn poll_jobs(&self) -> (r: Vec<Job>)
        requires
            self.tasks_wf(),
        ensures
            r@ == (match self.list_of_tasks {
                Some(ts) => released_at(ts@, ts@.len() as int, self.current_time),
                None => Seq::<Job>::empty(),
            }),
            forall|k: int|
                0 <= k < r@.len() ==> (#[trigger] r@[k]).wf() && r@[k].computation.status
                    == JobStatus::NotStarted,
    {
        let mut out: Vec<Job> = Vec::new();
        match &self.list_of_tasks {
            Some(ts) => {
                let n = ts.len();
                let mut i: usize = 0;
                while i < n
                    invariant
                        self.tasks_wf(),
                        self.list_of_tasks matches Some(l) && l@ == ts@,
                        n == ts@.len(),
                        i <= n,
                        out@ == released_at(ts@, i as int, self.current_time),
                        forall|k: int|
                            0 <= k < out@.len() ==> (#[trigger] out@[k]).wf()
                                && out@[k].computation.status == JobStatus::NotStarted,
                    decreases n - i,
                {
                    let ghost before = out@;
                    match &ts[i].jobs {
                        Some(js) => {
                            let m = js.len();
                            let mut k2: usize = 0;
                            while k2 < m
                                invariant
                                    self.tasks_wf(),
                                    self.list_of_tasks matches Some(l) && l@ == ts@,
                                    i < ts@.len(),
                                    ts@[i as int].jobs matches Some(jl) && jl@ == js@,
                                    m == js@.len(),
                                    k2 <= m,
                                    out@ == before + released_prefix(
                                        js@,
                                        k2 as int,
                                        self.current_time,
                                    ),
                                    before == released_at(ts@, i as int, self.current_time),
                                    forall|k: int|
                                        0 <= k < out@.len() ==> (#[trigger] out@[k]).wf()
                                            && out@[k].computation.status == JobStatus::NotStarted,
                                decreases m - k2,
                            {
                                proof {
                                    assert(ts@[i as int].wf());
                                    assert(ts@[i as int].generated_job_ok(js@[k2 as int], k2 as int));
                                }
                                let due = match js[k2].release_time {
                                    Some(rt) => rt == self.current_time,
                                    None => false,
                                };
                                if due {
                                    out.push(js[k2].duplicate());
                                    proof {
                                        assert(out@ =~= before + released_prefix(
                                            js@,
                                            k2 as int + 1,
                                            self.current_time,
                                        ));
                                    }
                                }
                                k2 = k2 + 1;
                            }
                            proof {
                                assert(out@ == before + released_of_task(
                                    ts@[i as int],
                                    self.current_time,
                                ));
                            }
                        },
                        None => {
                            proof {
                                assert(out@ =~= before + released_of_task(
                                    ts@[i as int],
                                    self.current_time,
                                ));
                            }
                        },
                    }
                    i = i + 1;
                }
                out
            },
            None => out,
        }
    }

    /// Populate every task's job sequence with fresh instances; a prior
    /// sequence is replaced, never merged.
    pub fn generate_jobs(&mut self)
        requires
            old(self).tasks_wf(),
            old(self).list_of_tasks matches Some(ts) ==> forall|i: int|
                0 <= i < ts@.len() ==> old(self).number_of_tasks_per_cycle >= 1 ==> (#[trigger] ts@[
                    i
                ]).phase + ts@[i].period * (old(self).number_of_tasks_per_cycle - 1) + ts@[
                    i
                ].relative_deadline <= usize::MAX,
        ensures
            final(self).number_of_tasks == old(self).number_of_tasks,
            final(self).number_of_tasks_per_cycle == old(self).number_of_tasks_per_cycle,
            final(self).maximum_time_to_run == old(self).maximum_time_to_run,
            final(self).current_time == old(self).current_time,
            final(self).processor == old(self).processor,
            old(self).list_of_tasks is None ==> final(self).list_of_tasks is None,
            old(self).list_of_tasks matches Some(ts) ==> (final(self).list_of_tasks matches Some(
                ts2,
            ) && ts2@.len() == ts@.len() && forall|i: int|
                0 <= i < ts@.len() ==> {
                    &&& (#[trigger] ts2@[i]).id == ts@[i].id
                    &&& ts2@[i].worst_case_execution_time == ts@[i].worst_case_execution_time
                    &&& ts2@[i].best_case_execution_time == ts@[i].best_case_execution_time
                    &&& ts2@[i].relative_deadline == ts@[i].relative_deadline
                    &&& ts2@[i].period == ts@[i].period
                    &&& ts2@[i].phase == ts@[i].phase
                    &&& ts2@[i].wf()
                    &&& ts2@[i].jobs is Some
                    &&& task_jobs(ts2@[i]).len() == old(self).number_of_tasks_per_cycle
                }),
            final(self).tasks_wf(),
    {
        let count = self.number_of_tasks_per_cycle;
        let taken = self.list_of_tasks.take();
        match taken {
            Some(tasks_vec) => {
                let n = tasks_vec.len();
                let mut out: Vec<Task> = Vec::new();
                let mut i: usize = 0;
                while i < n
                    invariant
                        n == tasks_vec@.len(),
                        i <= n,
                        count >= 1 ==> forall|k: int|
                            0 <= k < n ==> (#[trigger] tasks_vec@[k]).phase + tasks_vec@[k].period
                                * (count - 1) + tasks_vec@[k].relative_deadline <= usize::MAX,
                        forall|k: int| 0 <= k < n ==> (#[trigger] tasks_vec@[k]).wf(),
                        out@.len() == i,
                        forall|k: int|
                            0 <= k < i ==> {
                                &&& (#[trigger] out@[k]).id == tasks_vec@[k].id
                                &&& out@[k].worst_case_execution_time == tasks_vec@[
                                    k
                                ].worst_case_execution_time
                                &&& out@[k].best_case_execution_time == tasks_vec@[
                                    k
                                ].best_case_execution_time
                                &&& out@[k].relative_deadline == tasks_vec@[k].relative_deadline
                                &&& out@[k].period == tasks_vec@[k].period
                                &&& out@[k].phase == tasks_vec@[k].phase
                                &&& out@[k].wf()
                                &&& out@[k].jobs is Some
                                &&& task_jobs(out@[k]).len() == count
                            },
                    decreases n - i,
                {
                    let src = &tasks_vec[i];
                    let mut fresh = Task {
                        id: src.id,
                        worst_case_execution_time: src.worst_case_execution_time,
                        best_case_execution_time: src.best_case_execution_time,
                        relative_deadline: src.relative_deadline,
                        period: src.period,
                        phase: src.phase,
                        jobs: None,
                    };
                    fresh.randomly_generate_jobs(count);
                    out.push(fresh);
                    i = i + 1;
                }
                self.list_of_tasks = Some(out);
            },
            None => {},
        }
    }

    /// Run the simulation: at each tick up to the horizon, release every
    /// job due now into the processor, in task order, then advance the
    /// processor by one tick. Fails fast with `NotReady`, before any tick,
    /// when no processor is configured or some task has no generated jobs.
    pub fn run(&mut self) -> (r: Result<(), SchedError>)
        requires
            old(self).wf(),
        ensures
            run_post(*old(self), *final(self), r),
    {
        if !self.is_ready() {
            return Err(SchedError::NotReady);
        }
        let ghost ts0 = self.list_of_tasks->Some_0@;
        let ghost p0 = self.processor->Some_0@;
        let ghost t_start = self.current_time;
        let horizon = self.maximum_time_to_run;
        while self.current_time < horizon
            invariant
                self.wf(),
                self.is_ready_spec(),
                self.maximum_time_to_run == horizon,
                self.number_of_tasks == old(self).number_of_tasks,
                self.number_of_tasks_per_cycle == old(self).number_of_tasks_per_cycle,
                self.list_of_tasks == old(self).list_of_tasks,
                self.list_of_tasks matches Some(l) && l@ == ts0,
                self.processor is Some,
                self.processor->Some_0.id == old(self).processor->Some_0.id,
                self.processor->Some_0.clock_period == old(self).processor->Some_0.clock_period,
                t_start <= self.current_time,
                t_start < horizon ==> self.current_time <= horizon,
                t_start >= horizon ==> self.current_time == t_start,
                sim_from(ts0, self.processor->Some_0@, self.current_time, horizon) == sim_from(
                    ts0,
                    p0,
                    t_start,
                    horizon,
                ),
            decreases horizon - self.current_time,
        {
            let now = self.current_time;
            let ghost p_tick = self.processor->Some_0@;
            let due = self.poll_jobs();
            let ghost due_seq = due@;
            let dn = due.len();
            let mut di: usize = 0;
            while di < dn
                invariant
                    dn == due@.len(),
                    di <= dn,
                    due@ == due_seq,
                    forall|k: int|
                        0 <= k < due@.len() ==> (#[trigger] due@[k]).wf()
                            && due@[k].computation.status == JobStatus::NotStarted,
                    self.processor matches Some(pr) && pr.wf(),
                    self.processor->Some_0@ == add_jobs_spec(p_tick, due_seq, di as int),
                    self.processor->Some_0.id == old(self).processor->Some_0.id,
                    self.processor->Some_0.clock_period == old(self).processor->Some_0.clock_period,
                    self.list_of_tasks == old(self).list_of_tasks,
                    self.list_of_tasks matches Some(l) && l@ == ts0,
                    self.maximum_time_to_run == horizon,
                    self.number_of_tasks == old(self).number_of_tasks,
                    self.number_of_tasks_per_cycle == old(self).number_of_tasks_per_cycle,
                    self.current_time == now,
                    self.tasks_wf(),
                decreases dn - di,
            {
                let job = due[di].duplicate();
                match &mut self.processor {
                    Some(proc) => proc.add_job(job),
                    None => {},
                }
                di = di + 1;
            }
            match &mut self.processor {
                Some(proc) => proc.advance_time(now),
                None => {},
            }
            proof {
                assert(self.processor->Some_0@ == sim_tick(ts0, p_tick, now));
            }
            self.advance_time();
        }
        Ok(())
    }

    /// Randomly draw a task set: each task gets a worst case of at least
    /// two work units, a smaller best case, and a relative deadline at or
    /// above the worst case; the period equals the relative deadline.
    pub fn generate_tasks(&self, rand_range: usize) -> (r: Vec<Task>)
        requires
            3 <= rand_range,
            2 * rand_range <= usize::MAX,
        ensures
            r@.len() == self.number_of_tasks,
            forall|i: int|
                0 <= i < r@.len() ==> (#[trigger] r@[i]).wf() && r@[i].id == i && r@[
                    i
                ].jobs is None,
    {
        let mut tasks: Vec<Task> = Vec::new();
        let n = self.number_of_tasks;
        let mut i: usize = 0;
        while i < n
            invariant
                3 <= rand_range,
                2 * rand_range <= usize::MAX,
                i <= n,
                tasks@.len() == i,
                forall|k: int|
                    0 <= k < i ==> (#[trigger] tasks@[k]).wf() && tasks@[k].id == k && tasks@[
                        k
                    ].jobs is None,
            decreases n - i,
        {
            let wcet = sample_uniform(2, rand_range - 1);
            let bcet = sample_uniform(1, wcet - 1);
            let relative_deadline = sample_uniform(wcet, wcet + rand_range - 1);
            // the period is set to be equal to the relative deadline
            let period = relative_deadline;
            let made = Task::new(i, wcet, bcet, relative_deadline, period);
            match made {
                Ok(t) => {
                    tasks.push(t);
                },
                Err(_) => {
                    proof {
                        assert(false);
                    }
                },
            }
            i = i + 1;
        }
        tasks
    }

    /// The whole task set passes response-time analysis.
    pub fn check_schedulability(&self) -> (r: bool)
        requires
            self.tasks_wf(),
        ensures
            r == (match self.list_of_tasks {
                Some(ts) => forall|i: int| 0 <= i < ts@.len() ==> task_schedulable(ts@, i),
                None => false,
            }),
    {
        match &self.list_of_tasks {
            Some(ts) => {
                proof {
                    assert forall|j: int| 0 <= j < ts@.len() implies (#[trigger] ts@[
                        j
                    ]).params_ok() by {
                        assert(ts@[j].wf());
                    }
                }
                let n = ts.len();
                let mut i: usize = 0;
                while i < n
                    invariant
                        self.tasks_wf(),
                        self.list_of_tasks matches Some(l) && l@ == ts@,
                        all_params_ok(ts@),
                        n == ts@.len(),
                        i <= n,
                        forall|k: int| 0 <= k < i ==> task_schedulable(ts@, k),
                    decreases n - i,
                {
                    let verdict = response_time_for_task(ts, i);
                    if verdict.is_none() {
                        return false;
                    }
                    i = i + 1;
                }
                true
            },
            None => false,
        }
    }

    /// Ready to run: a processor is configured and every task has a
    /// non-empty generated job sequence.
    pub fn is_ready(&self) -> (r: bool)
        ensures
            r == self.is_ready_spec(),
    {
        if self.processor.is_none() {
            return false;
        }
        match &self.list_of_tasks {
            Some(ts) => {
                let n = ts.len();
                let mut i: usize = 0;
                while i < n
                    invariant
                        self.list_of_tasks matches Some(l) && l@ == ts@,
                        n == ts@.len(),
                        i <= n,
                        forall|k: int|
                            0 <= k < i ==> (#[trigger] ts@[k]).jobs is Some && task_jobs(
                                ts@[k],
                            ).len() > 0,
                    decreases n - i,
                {
                    let has_jobs = match &ts[i].jobs {
                        Some(js) => js.len() > 0,
                        None => false,
                    };
                    if !has_jobs {
                        return false;
                    }
                    i = i + 1;
                }
                true
            },
            None => false,
        }
    }
}

/// Thin facade over the simulator state.
#[derive(Debug)]
pub struct Simulator {
    pub variables: SimulatorVariables,
}

impl Simulator {
    pub fn new(
        number_of_tasks: usize,
        number_of_tasks_per_cycle: usize,
        maximum_time_to_run: usize,
    ) -> (r: Self)
        ensures
            r.variables == (SimulatorVariables {
                number_of_tasks,
                number_of_tasks_per_cycle,
                maximum_time_to_run,
                current_time: 0,
                list_of_tasks: None::<Vec<Task>>,
                processor: None::<ProcessorUnit>,
            }),
            r.variables.wf(),
    {
        let variables = SimulatorVariables::new(
            number_of_tasks,
            number_of_tasks_per_cycle,
            maximum_time_to_run,
        );
        Self { variables }
    }

    /// Draw a task set and install it.
    pub fn setup_tasks_from_gen(&mut self, rand_range: usize)
        requires
            3 <= rand_range,
            2 * rand_range <= usize::MAX,
        ensures
            final(self).variables.list_of_tasks matches Some(ts) && ts@.len() == old(
                self,
            ).variables.number_of_tasks && forall|i: int|
                0 <= i < ts@.len() ==> (#[trigger] ts@[i]).wf() && ts@[i].id == i && ts@[
                    i
                ].jobs is None,
            final(self).variables.number_of_tasks == old(self).variables.number_of_tasks,
            final(self).variables.number_of_tasks_per_cycle == old(
                self,
            ).variables.number_of_tasks_per_cycle,
            final(self).variables.maximum_time_to_run == old(self).variables.maximum_time_to_run,
            final(self).variables.current_time == old(self).variables.current_time,
            final(self).variables.processor == old(self).variables.processor,
            old(self).variables.wf() ==> final(self).variables.wf(),
    {
        let tasks = self.variables.generate_tasks(rand_range);
        self.variables.set_list_of_tasks(tasks);
    }

    /// Run the simulation to the horizon.
    pub fn run(&mut self) -> (r: Result<(), SchedError>)
        requires
            old(self).variables.wf(),
        ensures
            run_post(old(self).variables, final(self).variables, r),
    {
        self.variables.run()
    }

    /// Configure the single processor.
    pub fn setup_processor(&mut self, id: usize, clock_period: usize)
        ensures
            final(self).variables.processor matches Some(p) && p.id == id && p.clock_period
                == clock_period && p@ == (ProcModel {
                blocked: false,
                active: None::<Job>,
                queue: Seq::<Job>::empty(),
                history: Seq::<Job>::empty(),
            }),
            final(self).variables.list_of_tasks == old(self).variables.list_of_tasks,
            final(self).variables.number_of_tasks == old(self).variables.number_of_tasks,
            final(self).variables.number_of_tasks_per_cycle == old(
                self,
            ).variables.number_of_tasks_per_cycle,
            final(self).variables.maximum_time_to_run == old(self).variables.maximum_time_to_run,
            final(self).variables.current_time == old(self).variables.current_time,
            old(self).variables.wf() ==> final(self).variables.wf(),
    {
        self.variables.setup_processor(id, clock_period);
    }

    /// Response-time analysis of the installed task set.
    pub fn do_analysis(&self) -> (r: bool)
        requires
            self.variables.tasks_wf(),
        ensures
            r == (match self.variables.list_of_tasks {
                Some(ts) => forall|i: int| 0 <= i < ts@.len() ==> task_schedulable(ts@, i),
                None => false,
            }),
    {
        self.variables.check_schedulability()
    }

    /// The whole installed task set passes response-time analysis.
    pub fn check_schedulability(&self) -> (r: bool)
        requires
            self.variables.tasks_wf(),
        ensures
            r == (match self.variables.list_of_tasks {
                Some(ts) => forall|i: int| 0 <= i < ts@.len() ==> task_schedulable(ts@, i),
                None => false,
            }),
    {
        self.variables.check_schedulability()
    }
}

} // verus!
