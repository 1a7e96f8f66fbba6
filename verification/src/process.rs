//! A single execution resource: it holds at most one active job plus a FIFO
//! backlog, advances by one time unit per call, detects deadline misses, and
//! retires completed or missed jobs into an append-only history.

use vstd::prelude::*;

use crate::job::{
    job_advanced, job_checked, job_started, Compuation, Job, JobStatus,
};

verus! {

/// A job at rest in the processor: waiting to be started, or already missed.
pub open spec fn job_resting(j: Job) -> bool {
    j.computation.status == JobStatus::NotStarted || j.computation.status == JobStatus::Missed
}

/// A job the processor has retired: completed, or missed.
pub open spec fn job_retired(j: Job) -> bool {
    j.computation.status == JobStatus::Completed || j.computation.status == JobStatus::Missed
}

/// Append-only audit log of the jobs a processor has retired.
#[derive(Debug)]
pub struct JobHistory {
    pub done_jobs: Vec<Job>,
}

impl JobHistory {
    pub fn add(&mut self, job: Job)
        ensures
            final(self).done_jobs@ == old(self).done_jobs@.push(job),
    {
        self.done_jobs.push(job);
    }
}

/// FIFO backlog of jobs waiting for the processor; `size` mirrors the length
/// of the job list.
#[derive(Debug)]
pub struct JobQueue {
    pub size: usize,
    pub jobs: Vec<Job>,
}

impl JobQueue {
    /// The recorded size always matches the number of queued jobs.
    pub open spec fn wf(self) -> bool {
        self.size == self.jobs@.len()
    }

    pub fn new() -> (r: Self)
        ensures
            r.wf(),
            r.size == 0,
            r.jobs@ == Seq::<Job>::empty(),
    {
        Self { size: 0, jobs: Vec::new() }
    }
}

/// The processor state the contracts speak of: the scheduling flag, the
/// active job, the backlog in order, and the history in order.
pub ghost struct ProcModel {
    pub blocked: bool,
    pub active: Option<Job>,
    pub queue: Seq<Job>,
    pub history: Seq<Job>,
}

impl ProcModel {
    /// Well-formedness the processor maintains: a blocked processor holds a
    /// job that is running or has just missed; an idle processor holds at
    /// most a job at rest; the backlog holds jobs at rest; the history holds
    /// only retired jobs.
    pub open spec fn wf(self) -> bool {
        &&& self.blocked ==> self.active is Some
        &&& match self.active {
            Some(j) => j.wf() && (if self.blocked {
                j.computation.status == JobStatus::InProgress || j.computation.status
                    == JobStatus::Missed
            } else {
                job_resting(j)
            }),
            None => true,
        }
        &&& forall|i: int|
            0 <= i < self.queue.len() ==> (#[trigger] self.queue[i]).wf() && job_resting(
                self.queue[i],
            )
        &&& forall|i: int|
            0 <= i < self.history.len() ==> (#[trigger] self.history[i]).wf() && job_retired(
                self.history[i],
            )
    }
}

/// What `add_job` does to the processor state: a job arriving at an idle
/// processor becomes the active job (to be started on the next advance, not
/// synchronously); otherwise it joins the backlog tail.
pub open spec fn add_job_spec(p: ProcModel, j: Job) -> ProcModel {
    if p.active is Some {
        ProcModel { queue: p.queue.push(j), ..p }
    } else {
        ProcModel { active: Some(j), ..p }
    }
}

/// The dispatch part of one advance: an idle processor promotes the backlog
/// head if it has no active job, then either retires an already-missed
/// active job to the history or starts the active job and blocks.
pub open spec fn dispatch_step(p: ProcModel) -> ProcModel {
    if p.blocked {
        p
    } else {
        let p1 = if p.active is None && p.queue.len() > 0 {
            ProcModel { active: Some(p.queue[0]), queue: p.queue.drop_first(), ..p }
        } else {
            p
        };
        match p1.active {
            Some(j) => if j.computation.status == JobStatus::Missed {
                ProcModel { active: None, history: p1.history.push(j), ..p1 }
            } else {
                ProcModel { blocked: true, active: Some(job_started(j)), ..p1 }
            },
            None => p1,
        }
    }
}

/// The execute part of one advance: a blocked processor gives its active job
/// one unit of work; a job that thereby completes, or that had already
/// missed while running, is retired to the history and the processor
/// unblocks.
pub open spec fn execute_step(p: ProcModel) -> ProcModel {
    if !p.blocked {
        p
    } else {
        match p.active {
            Some(j) => if j.computation.status == JobStatus::InProgress {
                let j2 = job_advanced(j);
                if j2.computation.status == JobStatus::Completed {
                    ProcModel { blocked: false, active: None, history: p.history.push(j2), ..p }
                } else {
                    ProcModel { active: Some(j2), ..p }
                }
            } else {
                ProcModel { blocked: false, active: None, history: p.history.push(j), ..p }
            },
            None => ProcModel { blocked: false, ..p },
        }
    }
}

/// The deadline part of one advance: every job still held by the processor,
/// active or backlogged, is checked against the current time.
pub open spec fn deadline_step(p: ProcModel, t: usize) -> ProcModel {
    ProcModel {
        active: match p.active {
            Some(j) => Some(job_checked(j, t)),
            None => None,
        },
        queue: p.queue.map_values(|j: Job| job_checked(j, t)),
        ..p
    }
}

/// One full advance at time `t`: dispatch, then execute, then check
/// deadlines.
pub open spec fn advance_spec(p: ProcModel, t: usize) -> ProcModel {
    deadline_step(execute_step(dispatch_step(p)), t)
}

/// Dispatch preserves the processor's well-formedness.
pub proof fn lemma_dispatch_step_wf(p: ProcModel)
    requires
        p.wf(),
    ensures
        dispatch_step(p).wf(),
{
}

/// Execution preserves the processor's well-formedness.
pub proof fn lemma_execute_step_wf(p: ProcModel)
    requires
        p.wf(),
    ensures
        execute_step(p).wf(),
{
}

/// The deadline check preserves the processor's well-formedness.
pub proof fn lemma_deadline_step_wf(p: ProcModel, t: usize)
    requires
        p.wf(),
    ensures
        deadline_step(p, t).wf(),
{
    let p3 = deadline_step(p, t);
    assert forall|i: int| 0 <= i < p3.queue.len() implies (#[trigger] p3.queue[i]).wf()
        && job_resting(p3.queue[i]) by {
        assert(p3.queue[i] == job_checked(p.queue[i], t));
        assert(p.queue[i].wf() && job_resting(p.queue[i]));
    }
}

/// One advance preserves the processor's well-formedness.
pub proof fn lemma_advance_spec_wf(p: ProcModel, t: usize)
    requires
        p.wf(),
    ensures
        advance_spec(p, t).wf(),
{
    lemma_dispatch_step_wf(p);
    lemma_execute_step_wf(dispatch_step(p));
    lemma_deadline_step_wf(execute_step(dispatch_step(p)), t);
}

/// The processor state after `n` successive advances, the first at `t0`.
pub open spec fn advance_iter(p: ProcModel, t0: usize, n: nat) -> ProcModel
    decreases n,
{
    if n == 0 {
        p
    } else {
        advance_iter(advance_spec(p, t0), (t0 + 1) as usize, (n - 1) as nat)
    }
}

/// The job `j` running with `done` units of work completed.
pub open spec fn with_progress(j: Job, done: int) -> Job {
    Job {
        computation: Compuation {
            execution_time: j.computation.execution_time,
            completed_compuation_time: done as usize,
            status: JobStatus::InProgress,
        },
        ..j
    }
}

/// The job `j` completed: all its required work done.
pub open spec fn completed_job(j: Job) -> Job {
    Job {
        computation: Compuation {
            execution_time: j.computation.execution_time,
            completed_compuation_time: j.computation.execution_time,
            status: JobStatus::Completed,
        },
        ..j
    }
}

/// A deadline sweep leaves jobs without an absolute deadline unchanged.
proof fn lemma_check_identity(q: Seq<Job>, t: usize)
    requires
        forall|i: int| 0 <= i < q.len() ==> (#[trigger] q[i]).absolute_deadline is None,
    ensures
        q.map_values(|j: Job| job_checked(j, t)) == q,
{
    assert(q.map_values(|j: Job| job_checked(j, t)) =~= q);
}

/// Advancing `m + n` times is advancing `m` times, then `n` more.
proof fn lemma_advance_iter_split(p: ProcModel, t0: usize, m: nat, n: nat)
    requires
        t0 + m + n <= usize::MAX,
    ensures
        advance_iter(p, t0, m + n) == advance_iter(advance_iter(p, t0, m), (t0 + m) as usize, n),
    decreases m,
{
    if m > 0 {
        lemma_advance_iter_split(advance_spec(p, t0), (t0 + 1) as usize, (m - 1) as nat, n);
    }
}

/// A blocked processor whose running job still needs `left` units of work,
/// whose deadline cannot strike before that work is done, and whose backlog
/// holds only deadline-free jobs: each advance adds exactly one unit of
/// progress while backlog and history stay untouched, and the advance that
/// finishes the work retires the job to the history as completed.
proof fn lemma_busy_processor_runs(p: ProcModel, t0: usize)
    requires
        p.wf(),
        p.blocked,
        p.active is Some,
        p.active->Some_0.computation.status == JobStatus::InProgress,
        ({
            let j = p.active->Some_0;
            let left = j.computation.execution_time - j.computation.completed_compuation_time;
            &&& (j.absolute_deadline is None || j.absolute_deadline->Some_0 >= t0 + left - 1)
            &&& t0 + left <= usize::MAX
        }),
        forall|i: int| 0 <= i < p.queue.len() ==> (#[trigger] p.queue[i]).absolute_deadline is None,
    ensures
        ({
            let j = p.active->Some_0;
            let left = j.computation.execution_time - j.computation.completed_compuation_time;
            &&& advance_iter(p, t0, left as nat) == (ProcModel {
                blocked: false,
                active: None::<Job>,
                queue: p.queue,
                history: p.history.push(completed_job(j)),
            })
            &&& forall|k: int|
                #![trigger advance_iter(p, t0, k as nat)]
                0 <= k < left ==> advance_iter(p, t0, k as nat) == (ProcModel {
                    blocked: true,
                    active: Some(
                        with_progress(j, j.computation.completed_compuation_time + k),
                    ),
                    queue: p.queue,
                    history: p.history,
                })
        }),
    decreases
            p.active->Some_0.computation.execution_time
                - p.active->Some_0.computation.completed_compuation_time,
{
    let j = p.active->Some_0;
    let c = j.computation.completed_compuation_time as int;
    let e = j.computation.execution_time as int;
    let left = e - c;
    assert(c < e);
    assert(dispatch_step(p) == p);
    let j2 = job_advanced(j);
    lemma_check_identity(p.queue, t0);
    assert(j == with_progress(j, c));
    if left == 1 {
        assert(j2 == completed_job(j));
        assert(execute_step(p) == (ProcModel {
            blocked: false,
            active: None::<Job>,
            history: p.history.push(j2),
            ..p
        }));
        assert(advance_spec(p, t0) == (ProcModel {
            blocked: false,
            active: None::<Job>,
            queue: p.queue,
            history: p.history.push(completed_job(j)),
        }));
        assert(advance_iter(advance_spec(p, t0), (t0 + 1) as usize, 0nat) == advance_spec(
            p,
            t0,
        ));
        assert(advance_iter(p, t0, 1nat) == advance_spec(p, t0));
    } else {
        assert(j2.computation.status == JobStatus::InProgress);
        assert(j2 == with_progress(j, c + 1));
        assert(execute_step(p) == (ProcModel { active: Some(j2), ..p }));
        assert(job_checked(j2, t0) == j2);
        let p1 = ProcModel { blocked: true, active: Some(j2), queue: p.queue, history: p.history };
        assert(advance_spec(p, t0) == p1);
        assert(p1.wf());
        lemma_busy_processor_runs(p1, (t0 + 1) as usize);
        assert(completed_job(j2) == completed_job(j));
        assert(advance_iter(p, t0, left as nat) == advance_iter(p1, (t0 + 1) as usize, (left - 1) as nat));
        assert forall|k: int|
            #![trigger advance_iter(p, t0, k as nat)]
            0 <= k < left implies advance_iter(p, t0, k as nat) == (ProcModel {
                blocked: true,
                active: Some(with_progress(j, c + k)),
                queue: p.queue,
                history: p.history,
            }) by {
            if k > 0 {
                assert(advance_iter(p, t0, k as nat) == advance_iter(
                    p1,
                    (t0 + 1) as usize,
                    (k - 1) as nat,
                ));
                assert(with_progress(j2, c + 1 + (k - 1)) == with_progress(j, c + k));
            }
        }
    }
}

/// A single job with execution time `e`, handed to an idle processor with
/// no competitors, is started on the first advance and completes after
/// exactly `e` advances: its progress reaches `e` on the `e`-th call, on
/// which it is retired to the history as completed.
pub proof fn lemma_lone_job_completes(p0: ProcModel, j: Job, t0: usize)
    requires
        p0 == (ProcModel {
            blocked: false,
            active: None::<Job>,
            queue: Seq::<Job>::empty(),
            history: Seq::<Job>::empty(),
        }),
        j.wf(),
        j.computation.status == JobStatus::NotStarted,
        j.computation.completed_compuation_time == 0,
        j.absolute_deadline is None || j.absolute_deadline->Some_0 >= t0
            + j.computation.execution_time - 1,
        t0 + j.computation.execution_time <= usize::MAX,
    ensures
        forall|k: int|
            #![trigger advance_iter(add_job_spec(p0, j), t0, k as nat)]
            1 <= k < j.computation.execution_time ==> advance_iter(
                add_job_spec(p0, j),
                t0,
                k as nat,
            ) == (ProcModel {
                blocked: true,
                active: Some(with_progress(j, k)),
                queue: Seq::<Job>::empty(),
                history: Seq::<Job>::empty(),
            }),
        advance_iter(add_job_spec(p0, j), t0, j.computation.execution_time as nat) == (ProcModel {
            blocked: false,
            active: None::<Job>,
            queue: Seq::<Job>::empty(),
            history: seq![completed_job(j)],
        }),
{
    let p1 = add_job_spec(p0, j);
    assert(p1 == (ProcModel {
        blocked: false,
        active: Some(j),
        queue: Seq::<Job>::empty(),
        history: Seq::<Job>::empty(),
    }));
    let e = j.computation.execution_time as int;
    let js = job_started(j);
    assert(dispatch_step(p1) == (ProcModel {
        blocked: true,
        active: Some(js),
        queue: Seq::<Job>::empty(),
        history: Seq::<Job>::empty(),
    }));
    let j1 = job_advanced(js);
    lemma_check_identity(Seq::<Job>::empty(), t0);
    if e == 1 {
        assert(j1 == completed_job(j));
        assert(advance_spec(p1, t0) == (ProcModel {
            blocked: false,
            active: None::<Job>,
            queue: Seq::<Job>::empty(),
            history: seq![completed_job(j)],
        }));
        assert(advance_iter(advance_spec(p1, t0), (t0 + 1) as usize, 0nat) == advance_spec(
            p1,
            t0,
        ));
        assert(advance_iter(p1, t0, 1nat) == advance_spec(p1, t0));
    } else {
        assert(j1 == with_progress(j, 1));
        assert(job_checked(j1, t0) == j1);
        let p2 = ProcModel {
            blocked: true,
            active: Some(j1),
            queue: Seq::<Job>::empty(),
            history: Seq::<Job>::empty(),
        };
        assert(advance_spec(p1, t0) == p2);
        assert(p2.wf());
        lemma_busy_processor_runs(p2, (t0 + 1) as usize);
        assert(completed_job(j1) == completed_job(j));
        assert(advance_iter(p1, t0, e as nat) == advance_iter(
            p2,
            (t0 + 1) as usize,
            (e - 1) as nat,
        ));
        assert forall|k: int|
            #![trigger advance_iter(p1, t0, k as nat)]
            1 <= k < e implies advance_iter(p1, t0, k as nat) == (ProcModel {
                blocked: true,
                active: Some(with_progress(j, k)),
                queue: Seq::<Job>::empty(),
                history: Seq::<Job>::empty(),
            }) by {
            assert(advance_iter(p1, t0, k as nat) == advance_iter(
                p2,
                (t0 + 1) as usize,
                (k - 1) as nat,
            ));
            assert(with_progress(j1, 1 + (k - 1)) == with_progress(j, k));
        }
    }
}

/// Deadline-miss precedence: after an advance at time `t`, any job the
/// processor still holds, active or backlogged, whose absolute deadline has
/// been reached is marked missed, even if one more tick of work would have
/// completed it.
pub proof fn lemma_deadline_miss(p: ProcModel, t: usize)
    requires
        p.wf(),
    ensures
        advance_spec(p, t).active matches Some(j) ==> ((j.absolute_deadline matches Some(d) && d
            <= t) ==> j.computation.status == JobStatus::Missed),
        forall|i: int|
            0 <= i < advance_spec(p, t).queue.len() ==> (((#[trigger] advance_spec(
                p,
                t,
            ).queue[i]).absolute_deadline matches Some(d) && d <= t) ==> advance_spec(
                p,
                t,
            ).queue[i].computation.status == JobStatus::Missed),
{
    let p1 = dispatch_step(p);
    lemma_dispatch_step_wf(p);
    let p2 = execute_step(p1);
    lemma_execute_step_wf(p1);
    let p3 = deadline_step(p2, t);
    assert(p2.active matches Some(j) ==> j.computation.status != JobStatus::Completed);
    assert forall|i: int|
        0 <= i < p3.queue.len() implies (((#[trigger] p3.queue[i]).absolute_deadline matches Some(
        d,
    ) && d <= t) ==> p3.queue[i].computation.status == JobStatus::Missed) by {
        assert(p3.queue[i] == job_checked(p2.queue[i], t));
        assert(p2.queue[i].wf() && job_resting(p2.queue[i]));
    }
}

/// FIFO fairness: jobs `a` then `b`, in that order, arrive at an idle
/// processor. Until `a` has completed, `b` waits untouched in the backlog
/// and is never started; `a` is retired as completed after its own
/// execution time, `b` only after both, so the history records them in
/// arrival order.
pub proof fn lemma_fifo_order(p0: ProcModel, a: Job, b: Job, t0: usize)
    requires
        p0 == (ProcModel {
            blocked: false,
            active: None::<Job>,
            queue: Seq::<Job>::empty(),
            history: Seq::<Job>::empty(),
        }),
        a.wf(),
        a.computation.status == JobStatus::NotStarted,
        a.computation.completed_compuation_time == 0,
        a.absolute_deadline is None,
        b.wf(),
        b.computation.status == JobStatus::NotStarted,
        b.computation.completed_compuation_time == 0,
        b.absolute_deadline is None,
        t0 + a.computation.execution_time + b.computation.execution_time <= usize::MAX,
    ensures
        forall|k: int|
            #![trigger advance_iter(add_job_spec(add_job_spec(p0, a), b), t0, k as nat)]
            0 <= k <= a.computation.execution_time ==> advance_iter(
                add_job_spec(add_job_spec(p0, a), b),
                t0,
                k as nat,
            ).queue == seq![b],
        advance_iter(
            add_job_spec(add_job_spec(p0, a), b),
            t0,
            a.computation.execution_time as nat,
        ) == (ProcModel {
            blocked: false,
            active: None::<Job>,
            queue: seq![b],
            history: seq![completed_job(a)],
        }),
        advance_iter(
            add_job_spec(add_job_spec(p0, a), b),
            t0,
            (a.computation.execution_time + b.computation.execution_time) as nat,
        ) == (ProcModel {
            blocked: false,
            active: None::<Job>,
            queue: Seq::<Job>::empty(),
            history: seq![completed_job(a), completed_job(b)],
        }),
{
    let p2 = add_job_spec(add_job_spec(p0, a), b);
    let ea = a.computation.execution_time as int;
    let eb = b.computation.execution_time as int;
    assert(p2 == (ProcModel {
        blocked: false,
        active: Some(a),
        queue: seq![b],
        history: Seq::<Job>::empty(),
    }));
    let astarted = job_started(a);
    assert(dispatch_step(p2) == (ProcModel {
        blocked: true,
        active: Some(astarted),
        queue: seq![b],
        history: Seq::<Job>::empty(),
    }));
    let a1 = job_advanced(astarted);
    assert(seq![b][0].absolute_deadline is None);
    lemma_check_identity(seq![b], t0);
    let mid = ProcModel {
        blocked: false,
        active: None::<Job>,
        queue: seq![b],
        history: seq![completed_job(a)],
    };
    if ea == 1 {
        assert(a1 == completed_job(a));
        assert(Seq::<Job>::empty().push(completed_job(a)) =~= seq![completed_job(a)]);
        assert(advance_spec(p2, t0) == mid);
        assert(advance_iter(advance_spec(p2, t0), (t0 + 1) as usize, 0nat) == advance_spec(
            p2,
            t0,
        ));
        assert(advance_iter(p2, t0, 1nat) == advance_spec(p2, t0));
    } else {
        assert(a1 == with_progress(a, 1));
        assert(job_checked(a1, t0) == a1);
        let q1 = ProcModel {
            blocked: true,
            active: Some(a1),
            queue: seq![b],
            history: Seq::<Job>::empty(),
        };
        assert(advance_spec(p2, t0) == q1);
        assert(q1.wf());
        lemma_busy_processor_runs(q1, (t0 + 1) as usize);
        assert(Seq::<Job>::empty().push(completed_job(a1)) =~= seq![completed_job(a)]);
        assert(advance_iter(p2, t0, ea as nat) == advance_iter(
            q1,
            (t0 + 1) as usize,
            (ea - 1) as nat,
        ));
        assert(advance_iter(p2, t0, ea as nat) == mid);
        assert forall|k: int|
            #![trigger advance_iter(p2, t0, k as nat)]
            0 <= k <= ea implies advance_iter(p2, t0, k as nat).queue == seq![b] by {
            if 1 <= k < ea {
                assert(advance_iter(p2, t0, k as nat) == advance_iter(
                    q1,
                    (t0 + 1) as usize,
                    (k - 1) as nat,
                ));
            }
        }
    }
    // second phase: b is dispatched only now, and runs to completion
    lemma_advance_iter_split(p2, t0, ea as nat, eb as nat);
    assert(advance_iter(p2, t0, (ea + eb) as nat) == advance_iter(
        mid,
        (t0 + ea) as usize,
        eb as nat,
    ));
    let t1 = (t0 + ea) as usize;
    let bstarted = job_started(b);
    assert(seq![b].drop_first() =~= Seq::<Job>::empty());
    assert(dispatch_step(mid) == (ProcModel {
        blocked: true,
        active: Some(bstarted),
        queue: Seq::<Job>::empty(),
        history: seq![completed_job(a)],
    }));
    let b1 = job_advanced(bstarted);
    lemma_check_identity(Seq::<Job>::empty(), t1);
    let done = ProcModel {
        blocked: false,
        active: None::<Job>,
        queue: Seq::<Job>::empty(),
        history: seq![completed_job(a), completed_job(b)],
    };
    if eb == 1 {
        assert(b1 == completed_job(b));
        assert(seq![completed_job(a)].push(completed_job(b)) =~= seq![
            completed_job(a),
            completed_job(b),
        ]);
        assert(advance_spec(mid, t1) == done);
        assert(advance_iter(advance_spec(mid, t1), (t1 + 1) as usize, 0nat) == advance_spec(
            mid,
            t1,
        ));
        assert(advance_iter(mid, t1, 1nat) == advance_spec(mid, t1));
    } else {
        assert(b1 == with_progress(b, 1));
        assert(job_checked(b1, t1) == b1);
        let q2 = ProcModel {
            blocked: true,
            active: Some(b1),
            queue: Seq::<Job>::empty(),
            history: seq![completed_job(a)],
        };
        assert(advance_spec(mid, t1) == q2);
        assert(q2.wf());
        lemma_busy_processor_runs(q2, (t1 + 1) as usize);
        assert(seq![completed_job(a)].push(completed_job(b1)) =~= seq![
            completed_job(a),
            completed_job(b),
        ]);
        assert(completed_job(b1) == completed_job(b));
        assert(advance_iter(mid, t1, eb as nat) == advance_iter(
            q2,
            (t1 + 1) as usize,
            (eb - 1) as nat,
        ));
        assert(advance_iter(mid, t1, eb as nat) == done);
    }
}

/// A single execution resource with a FIFO backlog and an audit history.
#[derive(Debug)]
pub struct ProcessorUnit {
    /// Identifier of the processor.
    pub id: usize,
    /// True exactly while a job is being executed.
    pub blocked: bool,
    /// The job currently held for execution, if any.
    pub job: Option<Job>,
    /// FIFO backlog of waiting jobs.
    pub job_queue: JobQueue,
    /// Nominal cycle time; used only for the derived clock-speed report,
    /// never for simulation stepping.
    pub clock_period: usize,
    /// Append-only log of retired jobs.
    pub job_history: JobHistory,
}

impl View for ProcessorUnit {
    type V = ProcModel;

    open spec fn view(&self) -> ProcModel {
        ProcModel {
            blocked: self.blocked,
            active: self.job,
            queue: self.job_queue.jobs@,
            history: self.job_history.done_jobs@,
        }
    }
}

impl ProcessorUnit {
    /// Well-formedness of the executable state: the backlog size mirrors its
    /// list, and the modelled state is well-formed.
    pub open spec fn wf(self) -> bool {
        &&& self.job_queue.wf()
        &&& self@.wf()
    }

    pub fn new(id: usize, clock_period: usize) -> (r: Self)
        ensures
            r.wf(),
            r.id == id,
            r.clock_period == clock_period,
            r@ == (ProcModel {
                blocked: false,
                active: None::<Job>,
                queue: Seq::<Job>::empty(),
                history: Seq::<Job>::empty(),
            }),
    {
        Self {
            id,
            blocked: false,
            job: None,
            job_queue: JobQueue::new(),
            clock_period,
            job_history: JobHistory { done_jobs: Vec::new() },
        }
    }

    /// Derived clock-speed report from the nominal cycle time.
    pub fn clock_speed(&self) -> (r: usize)
        requires
            1 <= self.clock_period,
        ensures
            r == 1int / (self.clock_period as int),
    {
        1 / self.clock_period
    }

    fn block(&mut self)
        ensures
            *final(self) == (ProcessorUnit { blocked: true, ..*old(self) }),
    {
        self.blocked = true;
    }

    fn unblock(&mut self)
        ensures
            *final(self) == (ProcessorUnit { blocked: false, ..*old(self) }),
    {
        self.blocked = false;
    }

    fn add_job_to_history(&mut self, job: Job)
        ensures
            final(self)@ == (ProcModel { history: old(self)@.history.push(job), ..old(self)@ }),
            final(self).id == old(self).id,
            final(self).clock_period == old(self).clock_period,
            final(self).job_queue.wf() == old(self).job_queue.wf(),
    {
        self.job_history.add(job);
    }

    /// A job arriving at an idle processor becomes the active job, to be
    /// started on the next advance; otherwise it joins the backlog tail, in
    /// FIFO order with no reordering.
    pub fn add_job(&mut self, job: Job)
        requires
            old(self).wf(),
            job.wf(),
            job.computation.status == JobStatus::NotStarted,
        ensures
            final(self).wf(),
            final(self)@ == add_job_spec(old(self)@, job),
            final(self).id == old(self).id,
            final(self).clock_period == old(self).clock_period,
    {
        if self.job.is_some() {
            self.job_queue.jobs.push(job);
            self.job_queue.size = self.job_queue.jobs.len();
        } else {
            self.job = Some(job);
        }
    }

    /// Retire the held job, if any, into the history.
    fn remove_job(&mut self)
        requires
            old(self).job_queue.wf(),
        ensures
            final(self).job_queue.wf(),
            final(self)@ == (match old(self)@.active {
                Some(j) => ProcModel { active: None::<Job>, history: old(self)@.history.push(j), ..old(self)@ },
                None => old(self)@,
            }),
            final(self).id == old(self).id,
            final(self).clock_period == old(self).clock_period,
    {
        let held = self.job.take();
        match held {
            Some(job) => self.add_job_to_history(job),
            None => {},
        }
    }

    /// Promote the backlog head to the active slot if the processor holds no
    /// job.
    fn add_job_from_queue(&mut self)
        requires
            old(self).job_queue.wf(),
        ensures
            final(self).job_queue.wf(),
            final(self)@ == (if old(self)@.active is None && old(self)@.queue.len() > 0 {
                ProcModel {
                    active: Some(old(self)@.queue[0]),
                    queue: old(self)@.queue.drop_first(),
                    ..old(self)@
                }
            } else {
                old(self)@
            }),
            final(self).id == old(self).id,
            final(self).clock_period == old(self).clock_period,
    {
        if self.job.is_none() && self.job_queue.size > 0 {
            let head = self.job_queue.jobs.remove(0);
            self.job_queue.size = self.job_queue.size - 1;
            self.job = Some(head);
            proof {
                assert(self.job_queue.jobs@ =~= old(self)@.queue.drop_first());
            }
        }
    }

    /// Start the held job and block, if the processor is idle and holds one.
    fn start_job(&mut self)
        ensures
            final(self)@ == (if !old(self)@.blocked && old(self)@.active is Some {
                ProcModel {
                    blocked: true,
                    active: Some(job_started(old(self)@.active->Some_0)),
                    ..old(self)@
                }
            } else {
                old(self)@
            }),
            final(self).id == old(self).id,
            final(self).clock_period == old(self).clock_period,
            final(self).job_queue.wf() == old(self).job_queue.wf(),
    {
        if !self.blocked {
            let mut started = false;
            match &mut self.job {
                Some(job) => {
                    job.start();
                    started = true;
                },
                None => {},
            }
            if started {
                self.block();
            }
        }
    }

    /// One tick at `time`: dispatch a job if idle, give the active job one
    /// unit of work, and check every held job against its deadline. Never
    /// fatal: a missed deadline is a recorded state transition, not an
    /// error.
    pub fn advance_time(&mut self, time: usize)
        requires
            old(self).wf(),
        ensures
            final(self).wf(),
            final(self)@ == advance_spec(old(self)@, time),
            final(self).id == old(self).id,
            final(self).clock_period == old(self).clock_period,
    {
        let ghost m0 = self@;
        // dispatch: promote the backlog head if idle, then retire an
        // already-missed job or start the held one
        if !self.blocked {
            self.add_job_from_queue();
            let missed = match &self.job {
                Some(j) => j.computation.status == JobStatus::Missed,
                None => false,
            };
            if missed {
                self.remove_job();
            } else {
                self.start_job();
            }
        }
        proof {
            assert(self@ == dispatch_step(m0));
            lemma_dispatch_step_wf(m0);
        }
        // execute: one unit of work for the running job; retire it when it
        // completes or had already missed while running
        let ghost m1 = self@;
        if self.blocked {
            let in_progress = match &self.job {
                Some(j) => j.computation.status == JobStatus::InProgress,
                None => false,
            };
            if in_progress {
                match &mut self.job {
                    Some(job) => {
                        let advanced = job.advance_job_time();
                        match advanced {
                            Ok(_) => {},
                            Err(_) => {},
                        }
                    },
                    None => {},
                }
                let done = match &self.job {
                    Some(j) => j.computation.status == JobStatus::Completed,
                    None => false,
                };
                if done {
                    self.unblock();
                    self.remove_job();
                }
            } else {
                self.unblock();
                self.remove_job();
            }
        }
        proof {
            assert(self@ == execute_step(m1));
        }
        // deadline check on the active job and on every backlogged job
        let ghost m2 = self@;
        match &mut self.job {
            Some(job) => job.check_deadline(time),
            None => {},
        }
        let ghost q0 = self.job_queue.jobs@;
        let n = self.job_queue.jobs.len();
        let mut checked: Vec<Job> = Vec::new();
        let mut i: usize = 0;
        while i < n
            invariant
                q0 == self.job_queue.jobs@,
                n == q0.len(),
                i <= n,
                checked@.len() == i,
                forall|k: int| 0 <= k < i ==> checked@[k] == job_checked(q0[k], time),
            decreases n - i,
        {
            let mut j = self.job_queue.jobs[i].duplicate();
            j.check_deadline(time);
            checked.push(j);
            i = i + 1;
        }
        self.job_queue.jobs = checked;
        self.job_queue.size = self.job_queue.jobs.len();
        proof {
            assert(self.job_queue.jobs@ =~= m2.queue.map_values(|j: Job| job_checked(j, time)));
            assert(self@ == deadline_step(m2, time));
            lemma_advance_spec_wf(m0, time);
        }
    }
}

} // verus!
