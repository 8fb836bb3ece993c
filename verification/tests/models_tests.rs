use ztask_web::models::Task;

#[test]
fn new_task_has_unknown_status_and_empty_history() {
    let task = Task::new("t1");
    assert_eq!(task.id, "t1");
    assert_eq!(task.status, "UNKNOWN");
    assert!(task.time_entered.is_none());
    assert!(task.history.is_empty());
}

#[test]
fn new_task_initializes_sdd_tdd_fields() {
    let task = Task::new("t1");
    assert!(task.spec.is_none());
    assert!(task.depends_on.is_empty());
    assert!(task.blocks.is_empty());
    assert!(task.test_files.is_empty());
    assert!(task.implementation_files.is_empty());
    assert!(task.tdd_phase.is_none());
    assert!(task.test_command.is_none());
    assert!(task.verification_command.is_none());
    assert!(task.failure_reason.is_none());
    assert_eq!(task.attempt_count, 0);
}

#[test]
fn new_task_leaves_times_criteria_and_origin_unset() {
    let task = Task::new("some-task");
    assert_eq!(task.id, "some-task");
    assert!(task.time_accepted.is_none());
    assert!(task.time_completed.is_none());
    assert!(task.acceptance_criteria.is_none());
    assert!(task.entered_by.is_none());
}
