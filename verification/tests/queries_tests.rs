use ztask_web::is_valid_id;
use ztask_web::models::{HistoryEntry, Task};
use ztask_web::queries::{
    apply_field, classify_status, collect_task, collect_tasks, read_list, sort_projects,
    summarize_projects, ProjectSummary, SortDir, SortKey, StatusClass, StoreEntry,
};

/// Reads a stored value as a history entry the way the web layer does.
fn read_history(value: &str) -> Option<HistoryEntry> {
    let json: serde_json::Value = serde_json::from_str(value).ok()?;
    let text = |name: &str| json.get(name).and_then(|v| v.as_str()).map(|s| s.to_string());
    Some(HistoryEntry {
        timestamp: text("timestamp")?,
        from_status: text("from_status")?,
        to_status: text("to_status")?,
        note: text("note").unwrap_or_default(),
    })
}

/// The stored entries in key order, as an ordered store gives them back.
fn entries(pairs: &[(&str, &str)]) -> Vec<StoreEntry> {
    let mut sorted: Vec<(&str, &str)> = pairs.to_vec();
    sorted.sort();
    sorted
        .into_iter()
        .map(|(k, v)| StoreEntry { key: k.to_string(), value: v.to_string(), history: read_history(v) })
        .collect()
}

fn by_id<'a>(tasks: &'a [Task], id: &str) -> &'a Task {
    tasks.iter().find(|t| t.id == id).unwrap()
}

#[test]
fn fetch_all_tasks_groups_fields_by_task_id() {
    let store = entries(&[
        ("projects/p1/tasks/t1/status", "PENDING"),
        ("projects/p1/tasks/t1/time_entered", "2026-07-31T00:00:00+00:00"),
        ("projects/p1/tasks/t1/entered_by", "LLM"),
        ("projects/p1/tasks/t2/status", "COMPLETED"),
        (
            "projects/p1/tasks/t1/history/2026-07-31T00-00-00",
            r#"{"timestamp":"t","from_status":"NONE","to_status":"PENDING","note":""}"#,
        ),
    ]);

    let tasks = collect_tasks("p1", &store);

    assert_eq!(tasks.len(), 2);
    assert_eq!(by_id(&tasks, "t1").status, "PENDING");
    assert_eq!(by_id(&tasks, "t1").time_entered.as_deref(), Some("2026-07-31T00:00:00+00:00"));
    assert_eq!(by_id(&tasks, "t1").entered_by.as_deref(), Some("LLM"));
    assert_eq!(by_id(&tasks, "t1").history.len(), 1);
    assert_eq!(by_id(&tasks, "t2").status, "COMPLETED");
}

#[test]
fn fetch_all_tasks_parses_sdd_tdd_fields() {
    let store = entries(&[
        ("projects/p1/tasks/t1/status", "IN_PROGRESS"),
        ("projects/p1/tasks/t1/spec", "# Spec\n- item 1"),
        ("projects/p1/tasks/t1/depends_on", r#"["t0","t2"]"#),
        ("projects/p1/tasks/t1/blocks", r#"["t3"]"#),
        ("projects/p1/tasks/t1/test_files", r#"["src/test.rs"]"#),
        ("projects/p1/tasks/t1/implementation_files", r#"["src/lib.rs"]"#),
        ("projects/p1/tasks/t1/tdd_phase", "RED"),
        ("projects/p1/tasks/t1/test_command", "cargo test"),
        ("projects/p1/tasks/t1/verification_command", "cargo clippy"),
        ("projects/p1/tasks/t1/failure_reason", "compile error"),
        ("projects/p1/tasks/t1/attempt_count", "3"),
    ]);

    let tasks = collect_tasks("p1", &store);
    let task = by_id(&tasks, "t1");

    assert_eq!(task.spec.as_deref(), Some("# Spec\n- item 1"));
    assert_eq!(task.depends_on, vec!["t0", "t2"]);
    assert_eq!(task.blocks, vec!["t3"]);
    assert_eq!(task.test_files, vec!["src/test.rs"]);
    assert_eq!(task.implementation_files, vec!["src/lib.rs"]);
    assert_eq!(task.tdd_phase.as_deref(), Some("RED"));
    assert_eq!(task.test_command.as_deref(), Some("cargo test"));
    assert_eq!(task.verification_command.as_deref(), Some("cargo clippy"));
    assert_eq!(task.failure_reason.as_deref(), Some("compile error"));
    assert_eq!(task.attempt_count, 3);
}

#[test]
fn fetch_task_queries_task_specific_prefix_and_returns_none_if_missing() {
    let store = entries(&[("projects/p1/tasks/t1/status", "PENDING")]);

    let found = collect_task("p1", "t1", &store);
    assert_eq!(found.unwrap().status, "PENDING");

    let missing = collect_task("p1", "missing", &store);
    assert!(missing.is_none());
}

#[test]
fn collect_tasks_ignores_keys_of_other_projects() {
    let store = entries(&[
        ("projects/p1/tasks/t1/status", "PENDING"),
        ("projects/p10/tasks/t9/status", "PENDING"),
        ("projects/p2/tasks/t2/status", "PENDING"),
    ]);
    let tasks = collect_tasks("p1", &store);
    assert_eq!(tasks.len(), 1);
    assert_eq!(tasks[0].id, "t1");
}

#[test]
fn collect_tasks_keeps_first_occurrence_order_and_last_write_wins() {
    let store = vec![
        StoreEntry { key: "projects/p/tasks/b/status".into(), value: "PENDING".into(), history: None },
        StoreEntry { key: "projects/p/tasks/a/status".into(), value: "WIP".into(), history: None },
        StoreEntry { key: "projects/p/tasks/b/status".into(), value: "COMPLETED".into(), history: None },
    ];
    let tasks = collect_tasks("p", &store);
    assert_eq!(tasks.iter().map(|t| t.id.as_str()).collect::<Vec<_>>(), vec!["b", "a"]);
    assert_eq!(tasks[0].status, "COMPLETED");
}

#[test]
fn fetch_all_projects_groups_and_counts_by_status() {
    let store = entries(&[
        ("projects/p1/tasks/t1/status", "PENDING"),
        ("projects/p1/tasks/t2/status", "COMPLETED"),
        ("projects/p2/tasks/t1/status", "IN_PROGRESS"),
    ]);

    let projects = summarize_projects(&store, &Vec::new());

    assert_eq!(projects.len(), 2);
    assert_eq!(
        projects[0],
        ProjectSummary { id: "p1".to_string(), total: 2, incomplete: 1, wip: 0, last_activity: None }
    );
    assert_eq!(
        projects[1],
        ProjectSummary { id: "p2".to_string(), total: 1, incomplete: 1, wip: 1, last_activity: None }
    );
}

#[test]
fn fetch_all_projects_computes_last_activity_from_latest_history_entry() {
    let statuses = entries(&[
        ("projects/p1/tasks/t1/status", "PENDING"),
        ("projects/p2/tasks/t1/status", "PENDING"),
    ]);
    let history = entries(&[
        (
            "projects/p1/tasks/t1/history/2026-07-31T00-00-00",
            r#"{"timestamp":"2026-07-31T00:00:00+00:00","from_status":"NONE","to_status":"PENDING","note":""}"#,
        ),
        (
            "projects/p1/tasks/t1/history/2026-08-02T00-00-00",
            r#"{"timestamp":"2026-08-02T00:00:00+00:00","from_status":"PENDING","to_status":"IN_PROGRESS","note":""}"#,
        ),
    ]);

    let projects = summarize_projects(&statuses, &history);

    let p1 = projects.iter().find(|p| p.id == "p1").unwrap();
    assert_eq!(p1.last_activity.as_deref(), Some("2026-08-02T00:00:00+00:00"));

    let p2 = projects.iter().find(|p| p.id == "p2").unwrap();
    assert_eq!(p2.last_activity, None);
}

#[test]
fn summarize_projects_skips_history_of_unknown_projects_and_unreadable_entries() {
    let statuses = entries(&[("projects/p1/tasks/t1/status", "PENDING")]);
    let history = vec![
        StoreEntry {
            key: "projects/p9/tasks/t1/history/x".into(),
            value: String::new(),
            history: Some(HistoryEntry {
                timestamp: "2030".into(),
                from_status: "A".into(),
                to_status: "B".into(),
                note: String::new(),
            }),
        },
        StoreEntry { key: "projects/p1/tasks/t1/history/y".into(), value: "not json".into(), history: None },
    ];
    let projects = summarize_projects(&statuses, &history);
    assert_eq!(projects.len(), 1);
    assert_eq!(projects[0].last_activity, None);
}

#[test]
fn summarize_projects_sorts_by_id_and_counts_case_insensitively() {
    let statuses = entries(&[
        ("projects/zeta/tasks/t1/status", "completed"),
        ("projects/alpha/tasks/t1/status", "running"),
        ("projects/alpha/tasks/t2/status", "wip"),
    ]);
    let projects = summarize_projects(&statuses, &Vec::new());
    assert_eq!(projects[0], ProjectSummary { id: "alpha".into(), total: 2, incomplete: 2, wip: 2, last_activity: None });
    assert_eq!(projects[1], ProjectSummary { id: "zeta".into(), total: 1, incomplete: 0, wip: 0, last_activity: None });
}

fn sample_projects() -> Vec<ProjectSummary> {
    vec![
        ProjectSummary {
            id: "b".to_string(),
            total: 5,
            incomplete: 1,
            wip: 2,
            last_activity: Some("2026-08-01T00:00:00+00:00".to_string()),
        },
        ProjectSummary {
            id: "a".to_string(),
            total: 2,
            incomplete: 3,
            wip: 0,
            last_activity: Some("2026-08-03T00:00:00+00:00".to_string()),
        },
    ]
}

fn ids(projects: &[ProjectSummary]) -> Vec<&str> {
    projects.iter().map(|p| p.id.as_str()).collect()
}

#[test]
fn sort_key_parse_defaults_to_name_for_unknown_values() {
    assert_eq!(SortKey::parse("bogus"), SortKey::Name);
    assert_eq!(SortKey::parse("total"), SortKey::Total);
    assert_eq!(SortKey::parse("incomplete"), SortKey::Incomplete);
    assert_eq!(SortKey::parse("wip"), SortKey::Wip);
    assert_eq!(SortKey::parse("activity"), SortKey::Activity);
}

#[test]
fn sort_dir_parse_defaults_to_asc_for_unknown_values() {
    assert_eq!(SortDir::parse("bogus"), SortDir::Asc);
    assert_eq!(SortDir::parse("desc"), SortDir::Desc);
    assert_eq!(SortDir::parse("asc"), SortDir::Asc);
}

#[test]
fn sort_dir_flip_toggles() {
    assert_eq!(SortDir::Asc.flip(), SortDir::Desc);
    assert_eq!(SortDir::Desc.flip(), SortDir::Asc);
}

#[test]
fn sort_key_and_dir_texts_read_back() {
    for key in [SortKey::Name, SortKey::Total, SortKey::Incomplete, SortKey::Wip, SortKey::Activity] {
        assert_eq!(SortKey::parse(key.as_str()), key);
    }
    for dir in [SortDir::Asc, SortDir::Desc] {
        assert_eq!(SortDir::parse(dir.as_str()), dir);
        assert_eq!(dir.flip().flip(), dir);
    }
    assert_eq!(SortKey::Incomplete.as_str(), "incomplete");
    assert_eq!(SortDir::Desc.as_str(), "desc");
}

#[test]
fn sort_projects_by_name_ascending() {
    let mut projects = sample_projects();
    sort_projects(&mut projects, SortKey::Name, SortDir::Asc);
    assert_eq!(ids(&projects), vec!["a", "b"]);
}

#[test]
fn sort_projects_by_total_descending() {
    let mut projects = sample_projects();
    sort_projects(&mut projects, SortKey::Total, SortDir::Desc);
    assert_eq!(ids(&projects), vec!["b", "a"]);
}

#[test]
fn sort_projects_by_incomplete_ascending() {
    let mut projects = sample_projects();
    sort_projects(&mut projects, SortKey::Incomplete, SortDir::Asc);
    assert_eq!(ids(&projects), vec!["b", "a"]);
}

#[test]
fn sort_projects_by_wip_descending() {
    let mut projects = sample_projects();
    sort_projects(&mut projects, SortKey::Wip, SortDir::Desc);
    assert_eq!(ids(&projects), vec!["b", "a"]);
}

#[test]
fn sort_projects_by_activity_descending_puts_most_recent_first() {
    let mut projects = sample_projects();
    sort_projects(&mut projects, SortKey::Activity, SortDir::Desc);
    assert_eq!(ids(&projects), vec!["a", "b"]);
}

fn summary(id: &str, total: usize, last_activity: Option<&str>) -> ProjectSummary {
    ProjectSummary { id: id.to_string(), total, incomplete: 0, wip: 0, last_activity: last_activity.map(|s| s.to_string()) }
}

#[test]
fn sort_projects_is_stable_in_both_directions() {
    let mut projects = vec![summary("x", 1, None), summary("y", 2, None), summary("z", 1, None), summary("w", 2, None)];
    sort_projects(&mut projects, SortKey::Total, SortDir::Asc);
    assert_eq!(ids(&projects), vec!["x", "z", "y", "w"]);
    let mut projects = vec![summary("x", 1, None), summary("y", 2, None), summary("z", 1, None), summary("w", 2, None)];
    sort_projects(&mut projects, SortKey::Total, SortDir::Desc);
    assert_eq!(ids(&projects), vec!["y", "w", "x", "z"]);
}

#[test]
fn sort_projects_by_activity_puts_missing_activity_first_when_ascending() {
    let mut projects = vec![summary("a", 0, Some("2026-01-01")), summary("b", 0, None), summary("c", 0, Some("2025-12-31"))];
    sort_projects(&mut projects, SortKey::Activity, SortDir::Asc);
    assert_eq!(ids(&projects), vec!["b", "c", "a"]);
}

#[test]
fn sort_projects_by_name_uses_code_point_order() {
    let mut projects = vec![summary("b", 0, None), summary("B", 0, None), summary("ab", 0, None), summary("a", 0, None), summary("é", 0, None)];
    sort_projects(&mut projects, SortKey::Name, SortDir::Asc);
    assert_eq!(ids(&projects), vec!["B", "a", "ab", "b", "é"]);
}

fn apply(task: &mut Task, field: &str, value: &str) {
    apply_field(task, field, value, None);
}

#[test]
fn apply_field_reads_lists_from_json_or_comma_separated_text() {
    let mut task = Task::new("t");
    apply(&mut task, "depends_on", " a, b,,c , ");
    assert_eq!(task.depends_on, vec!["a", "b", "c"]);
    apply(&mut task, "blocks", "[]");
    assert!(task.blocks.is_empty());
    apply(&mut task, "test_files", "[1, 2]");
    assert_eq!(task.test_files, vec!["[1", "2]"]);
    apply(&mut task, "implementation_files", "");
    assert!(task.implementation_files.is_empty());
}

#[test]
fn read_list_takes_json_string_arrays_whole() {
    assert_eq!(read_list(r#"["a, b", "c"]"#), vec!["a, b", "c"]);
    assert_eq!(read_list("\u{3000}x\t,\u{a0}y\n"), vec!["x", "y"]);
}

#[test]
fn apply_field_parses_attempt_count_like_u32_parse() {
    let mut task = Task::new("t");
    apply(&mut task, "attempt_count", "+7");
    assert_eq!(task.attempt_count, 7);
    apply(&mut task, "attempt_count", "-1");
    assert_eq!(task.attempt_count, 0);
    apply(&mut task, "attempt_count", "4294967295");
    assert_eq!(task.attempt_count, 4294967295);
    apply(&mut task, "attempt_count", "4294967296");
    assert_eq!(task.attempt_count, 0);
    apply(&mut task, "attempt_count", "007");
    assert_eq!(task.attempt_count, 7);
    apply(&mut task, "attempt_count", " 7");
    assert_eq!(task.attempt_count, 0);
    apply(&mut task, "attempt_count", "+");
    assert_eq!(task.attempt_count, 0);
}

#[test]
fn apply_field_ignores_unknown_fields_and_unreadable_history() {
    let mut task = Task::new("t");
    let before = task.clone();
    apply(&mut task, "colour", "blue");
    apply(&mut task, "history/x", "not json");
    assert_eq!(task, before);
    let entry = HistoryEntry { timestamp: "t".into(), from_status: "A".into(), to_status: "B".into(), note: String::new() };
    apply_field(&mut task, "history/x", "ignored", Some(entry.clone()));
    assert_eq!(task.history, vec![entry]);
}

#[test]
fn classify_status_compares_in_upper_case() {
    assert_eq!(classify_status("in_progress"), StatusClass::Wip);
    assert_eq!(classify_status("Completed"), StatusClass::Completed);
    assert_eq!(classify_status("pending"), StatusClass::Open);
}

#[test]
fn is_valid_id_rejects_empty_and_wildcard_ids() {
    assert!(is_valid_id("p1"));
    assert!(is_valid_id("task-1_x.y"));
    assert!(!is_valid_id(""));
    for bad in ["bad*id", "a?", "#x", "$", "a/b"] {
        assert!(!is_valid_id(bad));
    }
}
