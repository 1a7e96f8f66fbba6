use rt_sched::analysis::{response_time_analysis, response_time_for_task};
use rt_sched::job::JobStatus;
use rt_sched::task::Task;
use rt_sched::SchedError;

fn task(id: usize, wcet: usize, bcet: usize, deadline: usize, period: usize) -> Task {
    Task::new(id, wcet, bcet, deadline, period).expect("valid task parameters")
}

#[test]
fn task_new_validates_parameters() {
    assert!(Task::new(1, 10, 5, 20, 40).is_ok());
    // best case of zero
    assert!(matches!(Task::new(1, 10, 0, 20, 40), Err(SchedError::InvalidParameters)));
    // best case above worst case
    assert!(matches!(Task::new(1, 5, 10, 20, 40), Err(SchedError::InvalidParameters)));
    // worst case above the relative deadline
    assert!(matches!(Task::new(1, 30, 5, 20, 40), Err(SchedError::InvalidParameters)));
    // period of zero
    assert!(matches!(Task::new(1, 10, 5, 20, 0), Err(SchedError::InvalidParameters)));
}

#[test]
fn generated_jobs_count_and_release_spacing() {
    let mut t = task(1, 10, 5, 20, 40);
    t.randomly_generate_jobs(4);
    let jobs = t.jobs.as_ref().expect("jobs generated");
    assert_eq!(jobs.len(), 4);
    for (k, j) in jobs.iter().enumerate() {
        assert_eq!(j.id, k + 1);
        assert_eq!(j.instance, Some(k + 1));
        assert_eq!(j.release_time, Some(40 * k));
        assert_eq!(j.absolute_deadline, Some(40 * k + 20));
        assert_eq!(j.computation.status, JobStatus::NotStarted);
    }
    // strictly increasing, spaced by exactly one period
    for k in 1..jobs.len() {
        let prev = jobs[k - 1].release_time.unwrap();
        let cur = jobs[k].release_time.unwrap();
        assert_eq!(cur, prev + 40);
        assert!(cur > prev);
    }
}

#[test]
fn generated_execution_times_stay_between_best_and_worst_case() {
    let mut t = task(1, 10, 5, 20, 40);
    t.randomly_generate_jobs(50);
    for j in t.jobs.as_ref().unwrap() {
        assert!(5 <= j.computation.execution_time);
        assert!(j.computation.execution_time <= 10);
    }
}

#[test]
fn degenerate_interval_samples_exactly_that_value() {
    let mut t = task(1, 7, 7, 20, 10);
    t.randomly_generate_jobs(10);
    for j in t.jobs.as_ref().unwrap() {
        assert_eq!(j.computation.execution_time, 7);
    }
}

#[test]
fn regeneration_replaces_the_prior_sequence() {
    let mut t = task(1, 10, 5, 20, 40);
    t.randomly_generate_jobs(5);
    assert_eq!(t.jobs.as_ref().unwrap().len(), 5);
    t.randomly_generate_jobs(2);
    assert_eq!(t.jobs.as_ref().unwrap().len(), 2);
}

#[test]
fn job_lookup_by_id_and_instance() {
    let mut t = task(1, 10, 5, 20, 40);
    t.randomly_generate_jobs(3);
    let j2 = t.get_job_by_id(2).expect("job with id 2");
    assert_eq!(j2.id, 2);
    assert!(t.get_job_by_id(9).is_none());
    let j3 = t.get_job_by_instance(3).expect("job with instance 3");
    assert_eq!(j3.instance, Some(3));
    assert!(t.get_job_by_instance(0).is_none());
}

#[test]
fn job_lookup_on_empty_task_finds_nothing() {
    let t = task(1, 10, 5, 20, 40);
    assert!(t.get_job_by_id(1).is_none());
    assert!(t.get_job_by_instance(1).is_none());
}

#[test]
fn uninstanced_job_is_reported() {
    let t = task(1, 10, 5, 20, 40);
    let mut j = rt_sched::job::Job::new(1, 5, rt_sched::job::Deadline::Hard);
    assert_eq!(t.calculate_release_time_for_job(&mut j), Err(SchedError::UninstancedJob));
    assert_eq!(t.calculate_absolute_deadline_for_job(&mut j), Err(SchedError::UninstancedJob));
}

#[test]
fn release_and_deadline_follow_the_instance() {
    let t = task(1, 10, 5, 20, 40);
    let mut j = rt_sched::job::Job::new(3, 5, rt_sched::job::Deadline::Hard);
    j.set_instance(3);
    assert_eq!(t.calculate_release_time_for_job(&mut j), Ok(()));
    assert_eq!(j.release_time, Some(80));
    assert_eq!(t.calculate_absolute_deadline_for_job(&mut j), Ok(()));
    assert_eq!(j.absolute_deadline, Some(100));
}

#[test]
fn random_execution_time_respects_the_interval() {
    let t = task(1, 9, 3, 20, 40);
    for _ in 0..100 {
        let e = t.get_random_execution_time();
        assert!(3 <= e && e <= 9);
    }
}

#[test]
fn zero_interference_response_time_is_the_worst_case() {
    let tasks = vec![task(1, 10, 5, 20, 40)];
    assert_eq!(response_time_for_task(&tasks, 0), Some(10));
}

#[test]
fn response_times_for_the_reference_pair() {
    // Task1 (higher priority): no interference, response 10, within 20.
    // Task2: iterates 20 -> 30 -> 30, converges at 30, within 40.
    let tasks = vec![task(1, 10, 5, 20, 40), task(2, 20, 10, 40, 40)];
    assert_eq!(response_time_for_task(&tasks, 0), Some(10));
    assert_eq!(response_time_for_task(&tasks, 1), Some(30));
    assert_eq!(response_time_analysis(&tasks), vec![1, 2]);
}

#[test]
fn raising_higher_priority_wcet_cannot_lower_a_response_time() {
    let low = vec![task(1, 5, 5, 40, 40), task(2, 20, 10, 40, 40)];
    let high = vec![task(1, 10, 5, 40, 40), task(2, 20, 10, 40, 40)];
    let r_low = response_time_for_task(&low, 1).expect("schedulable");
    let r_high = response_time_for_task(&high, 1).expect("schedulable");
    assert_eq!(r_low, 25);
    assert_eq!(r_high, 30);
    assert!(r_low <= r_high);
}

#[test]
fn analysis_reports_only_the_schedulable_tasks() {
    // The second task diverges past its deadline: 30 -> 50 -> 70 > 60.
    let tasks = vec![task(1, 20, 10, 40, 40), task(2, 30, 10, 60, 60)];
    assert_eq!(response_time_for_task(&tasks, 1), None);
    assert_eq!(response_time_analysis(&tasks), vec![1]);
}

#[test]
fn analysis_leaves_the_task_set_unchanged() {
    let tasks = vec![task(1, 10, 5, 20, 40), task(2, 20, 10, 40, 40)];
    let _ = response_time_analysis(&tasks);
    assert_eq!(tasks.len(), 2);
    assert_eq!(tasks[0].worst_case_execution_time, 10);
    assert_eq!(tasks[1].worst_case_execution_time, 20);
}
