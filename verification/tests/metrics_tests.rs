use ztask_web::metrics::{compute_status_breakdown, donut_buckets, format_duration, format_minutes, StatusBreakdown};
use ztask_web::models::Task;

fn task_with_status(id: &str, status: &str) -> Task {
    let mut task = Task::new(id);
    task.status = status.to_string();
    task
}

#[test]
fn compute_status_breakdown_counts_each_bucket() {
    let tasks = vec![
        task_with_status("t1", "PENDING"),
        task_with_status("t2", "IN_PROGRESS"),
        task_with_status("t3", "COMPLETED"),
        task_with_status("t4", "WIP"),
    ];

    let breakdown = compute_status_breakdown(&tasks);

    assert_eq!(breakdown, StatusBreakdown { completed: 1, wip: 2, open: 1 });
}

#[test]
fn compute_status_breakdown_compares_statuses_in_upper_case() {
    let tasks = vec![
        task_with_status("t1", "completed"),
        task_with_status("t2", "running"),
        task_with_status("t3", "Wip"),
        task_with_status("t4", "UNKNOWN"),
        task_with_status("t5", ""),
    ];
    let breakdown = compute_status_breakdown(&tasks);
    assert_eq!(breakdown, StatusBreakdown { completed: 1, wip: 2, open: 2 });
}

#[test]
fn compute_status_breakdown_of_no_tasks_is_all_zero() {
    let breakdown = compute_status_breakdown(&[]);
    assert_eq!(breakdown, StatusBreakdown { completed: 0, wip: 0, open: 0 });
}

#[test]
fn compute_donut_segments_splits_by_bucket() {
    let breakdown = StatusBreakdown { completed: 1, wip: 1, open: 2 };
    let buckets = donut_buckets(&breakdown);

    assert_eq!(buckets.len(), 3);
    assert_eq!(buckets[0].label, "Completed");
    assert_eq!(buckets[0].color, "#2e7d32");
    assert_eq!(buckets[0].count, 1);
    assert_eq!(buckets[1].label, "WIP");
    assert_eq!(buckets[1].color, "#f9a825");
    assert_eq!(buckets[1].count, 1);
    assert_eq!(buckets[2].label, "Open");
    assert_eq!(buckets[2].color, "#757575");
    assert_eq!(buckets[2].count, 2);
}

#[test]
fn compute_donut_segments_empty_when_no_tasks() {
    let breakdown = StatusBreakdown { completed: 0, wip: 0, open: 0 };
    assert!(donut_buckets(&breakdown).is_empty());
}

#[test]
fn donut_buckets_keep_empty_buckets_when_some_tasks_exist() {
    let breakdown = StatusBreakdown { completed: 0, wip: 0, open: 5 };
    let buckets = donut_buckets(&breakdown);
    assert_eq!(buckets.len(), 3);
    assert_eq!(buckets[0].count, 0);
    assert_eq!(buckets[2].count, 5);
}

#[test]
fn format_duration_formats_minutes_hours_and_days() {
    assert_eq!(format_duration(chrono::Duration::minutes(45)), "45m");
    assert_eq!(format_duration(chrono::Duration::minutes(135)), "2h 15m");
    assert_eq!(format_duration(chrono::Duration::hours(27)), "1d 3h");
}

#[test]
fn format_duration_uses_whole_minutes() {
    assert_eq!(format_duration(chrono::Duration::seconds(119)), "1m");
    assert_eq!(format_duration(chrono::Duration::seconds(-600)), "0m");
}

#[test]
fn format_minutes_shows_boundaries_and_negatives() {
    assert_eq!(format_minutes(0), "0m");
    assert_eq!(format_minutes(59), "59m");
    assert_eq!(format_minutes(60), "1h 0m");
    assert_eq!(format_minutes(1439), "23h 59m");
    assert_eq!(format_minutes(1440), "1d 0h");
    assert_eq!(format_minutes(10 * 1440 + 61), "10d 1h");
    assert_eq!(format_minutes(-5), "0m");
    assert_eq!(format_minutes(i64::MIN), "0m");
}
