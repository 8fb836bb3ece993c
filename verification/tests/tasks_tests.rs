use std::collections::BTreeMap;

use ztask_web::models::{HistoryEntry, Task};
use ztask_web::queries::{collect_task, StoreEntry};
use ztask_web::tasks::{
    create_task_writes, created_task, current_status, delete_task_key, edit_criteria_writes,
    history_key, task_or_not_found, update_status_writes, StoreWrite, TaskError,
};

/// An ordered in-memory store.
#[derive(Default)]
struct MemoryStore {
    data: BTreeMap<String, String>,
    put_calls: Vec<(String, String)>,
    delete_calls: Vec<String>,
}

fn read_history(value: &str) -> Option<HistoryEntry> {
    let json: serde_json::Value = serde_json::from_str(value).ok()?;
    let text = |name: &str| json.get(name).and_then(|v| v.as_str()).map(|s| s.to_string());
    Some(HistoryEntry {
        timestamp: text("timestamp")?,
        from_status: text("from_status")?,
        to_status: text("to_status")?,
        note: text("note").unwrap_or_default(),
    })
}

impl MemoryStore {
    fn seed(mut self, key: &str, value: &str) -> Self {
        self.data.insert(key.to_string(), value.to_string());
        self
    }

    fn put_all(&mut self, writes: Vec<StoreWrite>) {
        for w in writes {
            self.put_calls.push((w.key.clone(), w.value.clone()));
            self.data.insert(w.key, w.value);
        }
    }

    /// Removes every key matched by a key expression ending in `**`.
    fn delete(&mut self, key_expr: &str) {
        self.delete_calls.push(key_expr.to_string());
        let prefix = key_expr.strip_suffix("**").unwrap_or(key_expr).to_string();
        self.data.retain(|k, _| !k.starts_with(&prefix));
    }

    fn entries_under(&self, prefix: &str) -> Vec<StoreEntry> {
        self.data
            .iter()
            .filter(|(k, _)| k.starts_with(prefix))
            .map(|(k, v)| StoreEntry { key: k.clone(), value: v.clone(), history: read_history(v) })
            .collect()
    }

    fn task(&self, project_id: &str, task_id: &str) -> Option<Task> {
        let entries = self.entries_under(&format!("projects/{project_id}/tasks/{task_id}/"));
        collect_task(project_id, task_id, &entries)
    }

    fn status(&self, project_id: &str, task_id: &str) -> String {
        let entries = self.entries_under(&format!("projects/{project_id}/tasks/{task_id}/"));
        current_status(project_id, task_id, &entries)
    }

    fn create(&mut self, project_id: &str, task_id: &str, criteria: &str, now: &str) -> Task {
        self.put_all(create_task_writes(project_id, task_id, criteria, now));
        created_task(self.task(project_id, task_id), task_id)
    }

    fn update(&mut self, p: &str, t: &str, status: &str, note: &str, now: &str) -> Result<Task, TaskError> {
        let old = self.status(p, t);
        let writes = update_status_writes(p, t, &old, status, note, now)?;
        self.put_all(writes);
        task_or_not_found(self.task(p, t))
    }

    fn edit(&mut self, p: &str, t: &str, criteria: &str, now: &str) -> Result<Task, TaskError> {
        let status = self.status(p, t);
        let writes = edit_criteria_writes(p, t, &status, criteria, now)?;
        self.put_all(writes);
        task_or_not_found(self.task(p, t))
    }
}

#[test]
fn create_task_writes_expected_fields_and_history() {
    let mut store = MemoryStore::default();
    let task = store.create("p1", "t1", "Given X", "2026-08-01T00:00:00+00:00");

    assert_eq!(task.status, "PENDING");
    assert_eq!(task.entered_by.as_deref(), Some("USER"));
    assert_eq!(task.time_entered.as_deref(), Some("2026-08-01T00:00:00+00:00"));
    assert_eq!(task.acceptance_criteria.as_deref(), Some("Given X"));
    assert_eq!(task.history.len(), 1);
    assert_eq!(task.history[0].to_status, "PENDING");

    assert!(store.put_calls.contains(&("projects/p1/tasks/t1/entered_by".to_string(), "USER".to_string())));
}

#[test]
fn create_task_without_criteria_leaves_it_unset() {
    let mut store = MemoryStore::default();
    let task = store.create("p1", "t1", "", "2026-08-01T00:00:00+00:00");
    assert!(task.acceptance_criteria.is_none());
}

#[test]
fn create_task_writes_in_order_with_history_under_dashed_time() {
    let writes = create_task_writes("p1", "t1", "Given X", "2026-08-01T00:00:00+00:00");
    let keys: Vec<&str> = writes.iter().map(|w| w.key.as_str()).collect();
    assert_eq!(
        keys,
        vec![
            "projects/p1/tasks/t1/status",
            "projects/p1/tasks/t1/time_entered",
            "projects/p1/tasks/t1/entered_by",
            "projects/p1/tasks/t1/acceptance_criteria",
            "projects/p1/tasks/t1/history/2026-08-01T00-00-00+00-00",
        ]
    );
    let record: serde_json::Value = serde_json::from_str(&writes[4].value).unwrap();
    assert_eq!(record["timestamp"], "2026-08-01T00:00:00+00:00");
    assert_eq!(record["from_status"], "NONE");
    assert_eq!(record["to_status"], "PENDING");
    assert_eq!(record["note"], "Task created via web UI");
}

#[test]
fn created_task_falls_back_to_a_fresh_task() {
    let task = created_task(None, "t9");
    assert_eq!(task, Task::new("t9"));
}

#[test]
fn update_status_to_wip_sets_time_accepted() {
    let mut store = MemoryStore::default().seed("projects/p1/tasks/t1/status", "PENDING");
    let task = store.update("p1", "t1", "in_progress", "starting", "2026-08-01T01:00:00+00:00").unwrap();
    assert_eq!(task.status, "IN_PROGRESS");
    assert_eq!(task.time_accepted.as_deref(), Some("2026-08-01T01:00:00+00:00"));
    assert!(task.time_completed.is_none());
}

#[test]
fn update_status_to_completed_sets_time_completed() {
    let mut store = MemoryStore::default().seed("projects/p1/tasks/t1/status", "IN_PROGRESS");
    let task = store.update("p1", "t1", "completed", "", "2026-08-01T02:00:00+00:00").unwrap();
    assert_eq!(task.status, "COMPLETED");
    assert_eq!(task.time_completed.as_deref(), Some("2026-08-01T02:00:00+00:00"));
}

#[test]
fn update_status_missing_task_returns_not_found() {
    let mut store = MemoryStore::default();
    let result = store.update("p1", "missing", "completed", "", "2026-08-01T00:00:00+00:00");
    assert_eq!(result, Err(TaskError::NotFound));
    assert!(store.put_calls.is_empty());
}

#[test]
fn update_status_between_wip_statuses_keeps_time_accepted() {
    let writes = update_status_writes("p", "t", "IN_PROGRESS", "running", "n", "T").unwrap();
    let keys: Vec<&str> = writes.iter().map(|w| w.key.as_str()).collect();
    assert_eq!(keys, vec!["projects/p/tasks/t/status", "projects/p/tasks/t/history/T"]);
    assert_eq!(writes[0].value, "RUNNING");
    let record: serde_json::Value = serde_json::from_str(&writes[1].value).unwrap();
    assert_eq!(record["from_status"], "IN_PROGRESS");
    assert_eq!(record["to_status"], "RUNNING");
    assert_eq!(record["note"], "n");
}

#[test]
fn update_status_writes_refuse_unknown_tasks() {
    assert_eq!(update_status_writes("p", "t", "UNKNOWN", "wip", "", "T"), Err(TaskError::NotFound));
}

#[test]
fn edit_criteria_updates_value_and_appends_history() {
    let mut store = MemoryStore::default()
        .seed("projects/p1/tasks/t1/status", "PENDING")
        .seed("projects/p1/tasks/t1/acceptance_criteria", "old");
    let task = store.edit("p1", "t1", "new criteria", "2026-08-01T03:00:00+00:00").unwrap();
    assert_eq!(task.acceptance_criteria.as_deref(), Some("new criteria"));
    assert!(task.history.iter().any(|h| h.note == "criteria updated"));
}

#[test]
fn edit_criteria_missing_task_returns_not_found() {
    let mut store = MemoryStore::default();
    let result = store.edit("p1", "missing", "x", "2026-08-01T00:00:00+00:00");
    assert_eq!(result, Err(TaskError::NotFound));
}

#[test]
fn edit_criteria_history_keeps_the_status() {
    let writes = edit_criteria_writes("p", "t", "WIP", "c", "T").unwrap();
    let record: serde_json::Value = serde_json::from_str(&writes[1].value).unwrap();
    assert_eq!(record["from_status"], "WIP");
    assert_eq!(record["to_status"], "WIP");
}

#[test]
fn delete_task_removes_all_keys_under_the_task_prefix() {
    let mut store = MemoryStore::default()
        .seed("projects/p1/tasks/t1/status", "PENDING")
        .seed("projects/p1/tasks/t1/time_entered", "now");
    store.delete(&delete_task_key("p1", "t1"));
    assert!(store.task("p1", "t1").is_none());
    assert_eq!(store.delete_calls.as_slice(), ["projects/p1/tasks/t1/**".to_string()]);
}

#[test]
fn deleting_a_created_task_leaves_its_neighbours() {
    let mut store = MemoryStore::default();
    store.create("p1", "t1", "Given X", "2026-08-01T00:00:00+00:00");
    store.create("p1", "t10", "", "2026-08-01T00:00:00+00:00");
    store.delete(&delete_task_key("p1", "t1"));
    assert!(store.task("p1", "t1").is_none());
    assert_eq!(store.task("p1", "t10").unwrap().status, "PENDING");
}

#[test]
fn history_value_is_compact_json_with_keys_in_order() {
    let writes = create_task_writes("p", "t", "", "2026-08-01T00:00:00Z");
    assert_eq!(
        writes.last().unwrap().value,
        r#"{"from_status":"NONE","note":"Task created via web UI","timestamp":"2026-08-01T00:00:00Z","to_status":"PENDING"}"#
    );
}

#[test]
fn history_value_escapes_the_note() {
    let writes = update_status_writes("p", "t", "PENDING", "wip", "say \"hi\"\\\n\t\u{1}\u{1f}é", "T").unwrap();
    assert_eq!(
        writes.last().unwrap().value,
        r#"{"from_status":"PENDING","note":"say \"hi\"\\\n\t\u0001\u001fé","timestamp":"T","to_status":"WIP"}"#
    );
}

#[test]
fn created_keys_all_lie_under_the_delete_prefix() {
    let key = delete_task_key("p1", "t1");
    let prefix = key.strip_suffix("**").unwrap();
    for w in create_task_writes("p1", "t1", "c", "2026-01-01T00:00:00Z") {
        assert!(w.key.starts_with(prefix));
    }
}

#[test]
fn history_key_replaces_colons() {
    assert_eq!(history_key("2026-08-01T00:00:00+00:00"), "2026-08-01T00-00-00+00-00");
    assert_eq!(history_key("no colon"), "no colon");
}

#[test]
fn current_status_of_a_task_without_entries_is_unknown() {
    let store = MemoryStore::default();
    assert_eq!(store.status("p", "t"), "UNKNOWN");
}

#[test]
fn created_task_is_the_only_task_of_a_new_project() {
    let mut store = MemoryStore::default();
    store.put_all(create_task_writes("p1", "t1", "Given X", "2026-08-01T00:00:00+00:00"));
    let tasks = ztask_web::queries::collect_tasks("p1", &store.entries_under("projects/p1/tasks/"));
    assert_eq!(tasks.len(), 1);
    assert_eq!(tasks[0].id, "t1");
    assert_eq!(tasks[0].status, "PENDING");
    assert_eq!(tasks[0].history.len(), 1);
    assert_eq!(tasks[0].history[0].note, "Task created via web UI");
}

#[test]
fn created_task_is_counted_under_its_project() {
    let mut store = MemoryStore::default();
    store.put_all(create_task_writes("p1", "t1", "", "2026-08-01T00:00:00+00:00"));
    store.put_all(create_task_writes("p2", "t1", "", "2026-08-02T00:00:00+00:00"));
    let statuses: Vec<StoreEntry> =
        store.entries_under("projects/").into_iter().filter(|e| e.key.ends_with("/status")).collect();
    let history: Vec<StoreEntry> =
        store.entries_under("projects/").into_iter().filter(|e| e.key.contains("/history/")).collect();
    let projects = ztask_web::queries::summarize_projects(&statuses, &history);
    assert_eq!(projects.len(), 2);
    assert_eq!(projects[0].id, "p1");
    assert_eq!((projects[0].total, projects[0].incomplete, projects[0].wip), (1, 1, 0));
    assert_eq!(projects[0].last_activity.as_deref(), Some("2026-08-01T00:00:00+00:00"));
    assert_eq!(projects[1].id, "p2");
}
