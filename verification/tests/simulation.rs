use rt_sched::job::{Deadline, Job, JobStatus};
use rt_sched::process::ProcessorUnit;
use rt_sched::simulator::{Simulator, SimulatorVariables};
use rt_sched::task::Task;
use rt_sched::SchedError;

fn task(id: usize, wcet: usize, bcet: usize, deadline: usize, period: usize) -> Task {
    Task::new(id, wcet, bcet, deadline, period).expect("valid task parameters")
}

#[test]
fn processor_starts_idle_and_empty() {
    let p = ProcessorUnit::new(1, 2);
    assert_eq!(p.id, 1);
    assert_eq!(p.clock_period, 2);
    assert!(!p.blocked);
    assert!(p.job.is_none());
    assert_eq!(p.job_queue.size, 0);
    assert!(p.job_history.done_jobs.is_empty());
}

#[test]
fn clock_speed_is_derived_from_the_cycle_time() {
    assert_eq!(ProcessorUnit::new(1, 1).clock_speed(), 1);
    assert_eq!(ProcessorUnit::new(1, 2).clock_speed(), 0);
}

#[test]
fn first_job_becomes_active_later_ones_queue_in_order() {
    let mut p = ProcessorUnit::new(1, 1);
    p.add_job(Job::new(1, 3, Deadline::Hard));
    p.add_job(Job::new(2, 3, Deadline::Hard));
    p.add_job(Job::new(3, 3, Deadline::Hard));
    assert_eq!(p.job.as_ref().unwrap().id, 1);
    assert_eq!(p.job_queue.size, 2);
    assert_eq!(p.job_queue.jobs[0].id, 2);
    assert_eq!(p.job_queue.jobs[1].id, 3);
}

#[test]
fn lone_job_completes_in_exactly_its_execution_time() {
    let e = 5;
    let mut p = ProcessorUnit::new(1, 1);
    p.add_job(Job::new(1, e, Deadline::Hard));
    for call in 1..e {
        p.advance_time(call - 1);
        // after each of the first e - 1 calls the job is still running
        let active = p.job.as_ref().expect("job still active");
        assert_eq!(active.computation.status, JobStatus::InProgress);
        assert_eq!(active.computation.completed_compuation_time, call);
        assert!(p.job_history.done_jobs.is_empty());
    }
    // progress reaches e on the e-th call and the job is retired, completed
    p.advance_time(e - 1);
    assert!(p.job.is_none());
    assert!(!p.blocked);
    assert_eq!(p.job_history.done_jobs.len(), 1);
    let done = &p.job_history.done_jobs[0];
    assert_eq!(done.computation.status, JobStatus::Completed);
    assert_eq!(done.computation.completed_compuation_time, e);
}

#[test]
fn running_job_misses_even_when_one_tick_from_completion() {
    // execution time 5, absolute deadline 3: at the advance at time 3 the
    // job has one unit left and is marked missed, though the advance at
    // time 4 would have completed it
    let mut j = Job::new(1, 5, Deadline::Hard);
    j.set_absolute_deadline(3);
    let mut p = ProcessorUnit::new(1, 1);
    p.add_job(j);
    for t in 0..4 {
        p.advance_time(t);
    }
    let active = p.job.as_ref().expect("missed job still held");
    assert_eq!(active.computation.status, JobStatus::Missed);
    assert_eq!(active.computation.completed_compuation_time, 4);
    // the next advance retires it into the history
    p.advance_time(4);
    assert!(p.job.is_none());
    assert_eq!(p.job_history.done_jobs.len(), 1);
    assert_eq!(p.job_history.done_jobs[0].computation.status, JobStatus::Missed);
}

#[test]
fn job_completing_at_its_deadline_is_not_missed() {
    // the advance that finishes the work runs before the deadline check
    let mut j = Job::new(1, 3, Deadline::Hard);
    j.set_absolute_deadline(2);
    let mut p = ProcessorUnit::new(1, 1);
    p.add_job(j);
    for t in 0..3 {
        p.advance_time(t);
    }
    assert_eq!(p.job_history.done_jobs.len(), 1);
    assert_eq!(p.job_history.done_jobs[0].computation.status, JobStatus::Completed);
}

#[test]
fn waiting_job_can_miss_in_the_backlog() {
    let mut a = Job::new(1, 10, Deadline::Hard);
    a.set_absolute_deadline(100);
    let mut b = Job::new(2, 1, Deadline::Hard);
    b.set_absolute_deadline(3);
    let mut p = ProcessorUnit::new(1, 1);
    p.add_job(a);
    p.add_job(b);
    for t in 0..4 {
        p.advance_time(t);
    }
    // b missed its deadline while queued behind a
    assert_eq!(p.job_queue.jobs.len(), 1);
    assert_eq!(p.job_queue.jobs[0].id, 2);
    assert_eq!(p.job_queue.jobs[0].computation.status, JobStatus::Missed);
}

#[test]
fn fifo_first_arrival_completes_before_second_starts() {
    let ea = 3;
    let eb = 2;
    let mut p = ProcessorUnit::new(1, 1);
    p.add_job(Job::new(1, ea, Deadline::Hard));
    p.add_job(Job::new(2, eb, Deadline::Hard));
    for t in 0..ea {
        // b sits untouched in the backlog the whole time a runs
        assert_eq!(p.job_queue.jobs.len(), 1);
        assert_eq!(p.job_queue.jobs[0].computation.status, JobStatus::NotStarted);
        assert_eq!(p.job_queue.jobs[0].computation.completed_compuation_time, 0);
        p.advance_time(t);
    }
    // a retired as completed before b has started
    assert_eq!(p.job_history.done_jobs.len(), 1);
    assert_eq!(p.job_history.done_jobs[0].id, 1);
    assert_eq!(p.job_history.done_jobs[0].computation.status, JobStatus::Completed);
    for t in ea..ea + eb {
        p.advance_time(t);
    }
    assert_eq!(p.job_history.done_jobs.len(), 2);
    assert_eq!(p.job_history.done_jobs[1].id, 2);
    assert_eq!(p.job_history.done_jobs[1].computation.status, JobStatus::Completed);
}

#[test]
fn run_requires_a_processor() {
    let mut sim = SimulatorVariables::new(1, 1, 10);
    sim.set_list_of_tasks(vec![task(1, 2, 1, 5, 5)]);
    sim.generate_jobs();
    assert_eq!(sim.run(), Err(SchedError::NotReady));
}

#[test]
fn run_requires_generated_jobs() {
    let mut sim = SimulatorVariables::new(1, 1, 10);
    sim.set_list_of_tasks(vec![task(1, 2, 1, 5, 5)]);
    sim.setup_processor(1, 1);
    assert_eq!(sim.run(), Err(SchedError::NotReady));
}

#[test]
fn is_ready_needs_processor_tasks_and_jobs() {
    let mut sim = SimulatorVariables::new(1, 1, 10);
    assert!(!sim.is_ready());
    sim.set_list_of_tasks(vec![task(1, 2, 1, 5, 5)]);
    assert!(!sim.is_ready());
    sim.setup_processor(1, 1);
    assert!(!sim.is_ready());
    sim.generate_jobs();
    assert!(sim.is_ready());
}

#[test]
fn end_to_end_reference_pair_is_schedulable_and_simulates() {
    let mut sim = SimulatorVariables::new(2, 2, 1000);
    sim.set_list_of_tasks(vec![task(1, 10, 5, 20, 40), task(2, 20, 10, 40, 40)]);
    sim.generate_jobs();
    sim.setup_processor(1, 2);
    assert!(sim.is_ready());
    assert_eq!(sim.run(), Ok(()));
    assert_eq!(sim.current_time, 1000);
    assert!(sim.check_schedulability());
    // all four generated jobs were released and retired by the horizon
    let proc = sim.processor.as_ref().expect("processor configured");
    assert!(proc.job.is_none());
    assert_eq!(proc.job_queue.jobs.len(), 0);
    assert_eq!(proc.job_history.done_jobs.len(), 4);
}

#[test]
fn generate_jobs_populates_every_task() {
    let mut sim = SimulatorVariables::new(2, 3, 100);
    sim.set_list_of_tasks(vec![task(1, 10, 5, 20, 40), task(2, 20, 10, 40, 40)]);
    sim.generate_jobs();
    let tasks = sim.list_of_tasks.as_ref().unwrap();
    assert_eq!(tasks.len(), 2);
    for t in tasks {
        assert_eq!(t.jobs.as_ref().unwrap().len(), 3);
    }
}

#[test]
fn poll_jobs_returns_the_jobs_due_now() {
    let mut sim = SimulatorVariables::new(2, 2, 100);
    sim.set_list_of_tasks(vec![task(1, 10, 5, 20, 40), task(2, 20, 10, 40, 40)]);
    sim.generate_jobs();
    // both tasks release their first instance at tick 0
    let due = sim.poll_jobs();
    assert_eq!(due.len(), 2);
    assert_eq!(due[0].release_time, Some(0));
    assert_eq!(due[1].release_time, Some(0));
}

#[test]
fn simulator_facade_mirrors_the_variables() {
    let mut sim = Simulator::new(3, 2, 50);
    sim.setup_tasks_from_gen(10);
    let tasks = sim.variables.list_of_tasks.as_ref().unwrap();
    assert_eq!(tasks.len(), 3);
    for (i, t) in tasks.iter().enumerate() {
        assert_eq!(t.id, i);
        assert!(1 <= t.best_case_execution_time);
        assert!(t.best_case_execution_time <= t.worst_case_execution_time);
        assert!(t.worst_case_execution_time <= t.relative_deadline);
        assert_eq!(t.period, t.relative_deadline);
        assert!(t.jobs.is_none());
    }
    sim.setup_processor(1, 1);
    sim.variables.generate_jobs();
    assert_eq!(sim.run(), Ok(()));
    assert_eq!(sim.variables.current_time, 50);
    let _ = sim.do_analysis();
    let verdict = sim.check_schedulability();
    assert_eq!(verdict, sim.variables.check_schedulability());
}

#[test]
fn run_with_zero_horizon_does_nothing() {
    let mut sim = SimulatorVariables::new(1, 1, 0);
    sim.set_list_of_tasks(vec![task(1, 2, 1, 5, 5)]);
    sim.generate_jobs();
    sim.setup_processor(1, 1);
    assert_eq!(sim.run(), Ok(()));
    assert_eq!(sim.current_time, 0);
    let proc = sim.processor.as_ref().unwrap();
    assert!(proc.job.is_none());
    assert!(proc.job_history.done_jobs.is_empty());
}

#[test]
fn deadline_miss_is_a_recorded_outcome_not_an_error() {
    // two equal tasks saturate the processor: the first instance completes
    // just in time, the second misses while waiting behind it
    let mut sim = SimulatorVariables::new(2, 1, 100);
    sim.set_list_of_tasks(vec![task(1, 30, 30, 30, 30), task(2, 30, 30, 30, 30)]);
    sim.generate_jobs();
    sim.setup_processor(1, 1);
    assert_eq!(sim.run(), Ok(()));
    let history = &sim.processor.as_ref().unwrap().job_history.done_jobs;
    assert_eq!(history.len(), 2);
    assert_eq!(history[0].computation.status, JobStatus::Completed);
    assert_eq!(history[1].computation.status, JobStatus::Missed);
}

#[test]
fn empty_task_set_simulates_trivially() {
    let mut sim = SimulatorVariables::new(0, 1, 10);
    sim.set_list_of_tasks(vec![]);
    sim.generate_jobs();
    sim.setup_processor(1, 1);
    assert!(sim.is_ready());
    assert_eq!(sim.run(), Ok(()));
    assert_eq!(sim.current_time, 10);
    assert!(sim.processor.as_ref().unwrap().job_history.done_jobs.is_empty());
}

#[test]
fn check_schedulability_without_tasks_is_false() {
    let sim = SimulatorVariables::new(0, 0, 10);
    assert!(!sim.check_schedulability());
}
