use rt_sched::job::{Compuation, Deadline, Job, JobStatus};
use rt_sched::SchedError;

#[test]
fn computation_new_starts_fresh() {
    let c = Compuation::new(5);
    assert_eq!(c.execution_time, 5);
    assert_eq!(c.completed_compuation_time, 0);
    assert_eq!(c.status, JobStatus::NotStarted);
}

#[test]
fn computation_advances_to_completion() {
    let mut c = Compuation::new(2);
    c.start();
    assert_eq!(c.status, JobStatus::InProgress);
    assert_eq!(c.do_computation(), Ok(()));
    assert_eq!(c.completed_compuation_time, 1);
    assert_eq!(c.status, JobStatus::InProgress);
    assert_eq!(c.do_computation(), Ok(()));
    assert_eq!(c.completed_compuation_time, 2);
    assert_eq!(c.status, JobStatus::Completed);
}

#[test]
fn computation_rejects_work_when_not_in_progress() {
    let mut c = Compuation::new(3);
    assert_eq!(c.do_computation(), Err(SchedError::InvalidState));
    assert_eq!(c.completed_compuation_time, 0);
    assert_eq!(c.status, JobStatus::NotStarted);
}

#[test]
fn computation_failed_marks_missed_but_spares_completed() {
    let mut c = Compuation::new(1);
    c.start();
    assert_eq!(c.do_computation(), Ok(()));
    assert_eq!(c.status, JobStatus::Completed);
    c.failed();
    assert_eq!(c.status, JobStatus::Completed);

    let mut d = Compuation::new(1);
    d.failed();
    assert_eq!(d.status, JobStatus::Missed);
}

#[test]
fn job_new_leaves_timing_unset() {
    let j = Job::new(7, 4, Deadline::Hard);
    assert_eq!(j.id, 7);
    assert_eq!(j.computation.execution_time, 4);
    assert_eq!(j.computation.status, JobStatus::NotStarted);
    assert!(j.absolute_deadline.is_none());
    assert!(j.release_time.is_none());
    assert!(j.instance.is_none());
}

#[test]
fn job_setters_record_timing() {
    let mut j = Job::new(1, 4, Deadline::Soft);
    j.set_instance(3);
    j.set_release_time(20);
    j.set_absolute_deadline(35);
    assert_eq!(j.instance, Some(3));
    assert_eq!(j.release_time, Some(20));
    assert_eq!(j.absolute_deadline, Some(35));
}

#[test]
fn job_advance_requires_in_progress() {
    let mut j = Job::new(1, 2, Deadline::Firm);
    assert_eq!(j.advance_job_time(), Err(SchedError::InvalidState));
    j.start();
    assert_eq!(j.advance_job_time(), Ok(()));
    assert_eq!(j.computation.completed_compuation_time, 1);
    assert_eq!(j.advance_job_time(), Ok(()));
    assert_eq!(j.computation.status, JobStatus::Completed);
    assert_eq!(j.advance_job_time(), Err(SchedError::InvalidState));
}

#[test]
fn job_do_computation_is_silent_when_idle() {
    let mut j = Job::new(1, 2, Deadline::Hard);
    j.do_computation();
    assert_eq!(j.computation.completed_compuation_time, 0);
    j.start();
    j.do_computation();
    assert_eq!(j.computation.completed_compuation_time, 1);
}

#[test]
fn job_check_deadline_marks_missed_only_when_due() {
    let mut j = Job::new(1, 5, Deadline::Hard);
    j.set_absolute_deadline(10);
    j.start();
    j.check_deadline(9);
    assert_eq!(j.computation.status, JobStatus::InProgress);
    j.check_deadline(10);
    assert_eq!(j.computation.status, JobStatus::Missed);
    // idempotent once terminal
    j.check_deadline(11);
    assert_eq!(j.computation.status, JobStatus::Missed);
}

#[test]
fn job_check_deadline_spares_completed() {
    let mut j = Job::new(1, 1, Deadline::Hard);
    j.set_absolute_deadline(3);
    j.start();
    assert_eq!(j.advance_job_time(), Ok(()));
    assert_eq!(j.computation.status, JobStatus::Completed);
    j.check_deadline(100);
    assert_eq!(j.computation.status, JobStatus::Completed);
}

#[test]
fn job_without_deadline_never_misses() {
    let mut j = Job::new(1, 5, Deadline::Hard);
    j.start();
    j.check_deadline(1000);
    assert_eq!(j.computation.status, JobStatus::InProgress);
}

#[test]
fn job_duplicate_copies_every_field() {
    let mut j = Job::new(9, 6, Deadline::Hard);
    j.set_instance(2);
    j.set_release_time(40);
    j.set_absolute_deadline(60);
    j.start();
    let d = j.duplicate();
    assert_eq!(d.id, 9);
    assert_eq!(d.computation.execution_time, 6);
    assert_eq!(d.computation.completed_compuation_time, 0);
    assert_eq!(d.computation.status, JobStatus::InProgress);
    assert_eq!(d.instance, Some(2));
    assert_eq!(d.release_time, Some(40));
    assert_eq!(d.absolute_deadline, Some(60));
}
