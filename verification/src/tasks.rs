//! The writes that creating, updating, editing and deleting a task make.
use vstd::prelude::*;

use crate::json::{encode_history, history_json};
use crate::models::{unknown_status, Task};
use crate::queries::{
    collect_task, entry_views, gather_task, is_terminal, is_terminal_status, is_wip,
    is_wip_status, task_prefix, task_prefix_text, StoreEntry,
};
use crate::text::{chars_of, same_text, string_of, to_upper, uppercase};

verus! {

/// Who tasks created here are recorded as entered by.
pub const ENTERED_BY_USER: &'static str = "USER";

/// Why a task operation could not be carried out.
#[derive(Debug, Clone, PartialEq, Eq, Structural)]
pub enum TaskError {
    NotFound,
}

/// One key and value to be stored.
#[derive(Debug, Clone, PartialEq)]
pub struct StoreWrite {
    pub key: String,
    pub value: String,
}

impl View for StoreWrite {
    type V = (Seq<char>, Seq<char>);

    open spec fn view(&self) -> (Seq<char>, Seq<char>) {
        (self.key@, self.value@)
    }
}

/// The views of a list of writes.
pub open spec fn write_views(ws: Seq<StoreWrite>) -> Seq<(Seq<char>, Seq<char>)> {
    ws.map_values(|w: StoreWrite| w@)
}

/// A timestamp with every `:` replaced by `-`, for use in a key.
pub open spec fn dashed_time(now: Seq<char>) -> Seq<char> {
    now.map_values(|c: char| if c == ':' { '-' } else { c })
}

/// The key suffix of a history entry recorded at `now` (see `dashed_time`).
pub fn history_key(now: &str) -> (r: String)
    ensures
        r@ == dashed_time(now@),
{
    let cs = chars_of(now);
    let mut out: Vec<char> = Vec::new();
    let mut i: usize = 0;
    while i < cs.len()
        invariant
            i <= cs.len(),
            cs@ == now@,
            out@ == dashed_time(cs@.take(i as int)),
        decreases cs.len() - i,
    {
        let c = cs[i];
        if c == ':' {
            out.push('-');
        } else {
            out.push(c);
        }
        assert(dashed_time(cs@.take(i as int + 1)) =~= dashed_time(cs@.take(i as int)).push(
            if c == ':' {
                '-'
            } else {
                c
            },
        ));
        i = i + 1;
    }
    assert(cs@.take(cs.len() as int) =~= cs@);
    string_of(&out)
}

/// The key under which a history entry recorded at `now` is stored.
pub open spec fn history_entry_key(project_id: Seq<char>, task_id: Seq<char>, now: Seq<char>) -> Seq<char> {
    task_prefix(project_id, task_id) + "history/"@ + dashed_time(now)
}

/// The key of one field of a task.
pub open spec fn field_key(project_id: Seq<char>, task_id: Seq<char>, field: Seq<char>) -> Seq<char> {
    task_prefix(project_id, task_id) + field
}

/// A write of `value` under `key`.
fn write_of(key: String, value: &str) -> (w: StoreWrite)
    ensures
        w@ == (key@, value@),
{
    StoreWrite { key: key, value: String::from_str(value) }
}

/// Builds `field_key(project_id, task_id, field)`.
fn field_key_text(project_id: &str, task_id: &str, field: &str) -> (r: String)
    ensures
        r@ == field_key(project_id@, task_id@, field@),
{
    let mut key = task_prefix_text(project_id, task_id);
    key.append(field);
    key
}

/// Builds `history_entry_key(project_id, task_id, now)`.
fn history_entry_key_text(project_id: &str, task_id: &str, now: &str) -> (r: String)
    ensures
        r@ == history_entry_key(project_id@, task_id@, now@),
{
    let mut key = task_prefix_text(project_id, task_id);
    key.append("history/");
    let suffix = history_key(now);
    key.append(suffix.as_str());
    key
}

// ---------------------------------------------------------------------------
// Creating a task
// ---------------------------------------------------------------------------

/// The history note of a created task.
pub open spec fn creation_note() -> Seq<char> {
    "Task created via web UI"@
}

/// The writes that create a task: status `PENDING`, the entry time, entered
/// by `USER`, the acceptance criteria when they are not empty, and a history
/// entry from `NONE` to `PENDING` under the entry time.
pub open spec fn creation_writes(
    project_id: Seq<char>,
    task_id: Seq<char>,
    criteria: Seq<char>,
    now: Seq<char>,
) -> Seq<(Seq<char>, Seq<char>)> {
    let first = seq![
        (field_key(project_id, task_id, "status"@), "PENDING"@),
        (field_key(project_id, task_id, "time_entered"@), now),
        (field_key(project_id, task_id, "entered_by"@), "USER"@),
    ];
    let with_criteria = if criteria.len() > 0 {
        first.push((field_key(project_id, task_id, "acceptance_criteria"@), criteria))
    } else {
        first
    };
    with_criteria.push(
        (
            history_entry_key(project_id, task_id, now),
            history_json(now, "NONE"@, "PENDING"@, creation_note()),
        ),
    )
}

/// The writes that create a task (see `creation_writes`).
pub fn create_task_writes(project_id: &str, task_id: &str, criteria: &str, now: &str) -> (r: Vec<StoreWrite>)
    ensures
        write_views(r@) == creation_writes(project_id@, task_id@, criteria@, now@),
{
    let mut out: Vec<StoreWrite> = Vec::new();
    out.push(write_of(field_key_text(project_id, task_id, "status"), "PENDING"));
    out.push(write_of(field_key_text(project_id, task_id, "time_entered"), now));
    out.push(write_of(field_key_text(project_id, task_id, "entered_by"), ENTERED_BY_USER));
    let ghost first = seq![
        (field_key(project_id@, task_id@, "status"@), "PENDING"@),
        (field_key(project_id@, task_id@, "time_entered"@), now@),
        (field_key(project_id@, task_id@, "entered_by"@), "USER"@),
    ];
    assert(write_views(out@) =~= first);
    let has_criteria = !same_text(criteria, "");
    assert(has_criteria == (criteria@.len() > 0)) by {
        reveal_strlit("");
        assert(""@ =~= Seq::<char>::empty());
        if criteria@.len() == 0 {
            assert(criteria@ =~= ""@);
        }
    }
    if has_criteria {
        out.push(write_of(field_key_text(project_id, task_id, "acceptance_criteria"), criteria));
    }
    let ghost with_criteria = if criteria@.len() > 0 {
        first.push((field_key(project_id@, task_id@, "acceptance_criteria"@), criteria@))
    } else {
        first
    };
    assert(write_views(out@) =~= with_criteria);
    let record = encode_history(now, "NONE", "PENDING", "Task created via web UI");
    out.push(write_of(history_entry_key_text(project_id, task_id, now), record.as_str()));
    assert(write_views(out@) =~= creation_writes(project_id@, task_id@, criteria@, now@));
    out
}

/// The task to show after creating one: the task read back, or a fresh one
/// with the id when nothing could be read back.
pub fn created_task(found: Option<Task>, task_id: &str) -> (r: Task)
    ensures
        match found {
            Some(t) => r == t,
            None => r@ == crate::models::fresh_task(task_id@),
        },
{
    match found {
        Some(t) => t,
        None => Task::new(task_id),
    }
}

// ---------------------------------------------------------------------------
// Updating the status of a task
// ---------------------------------------------------------------------------

/// The status a task has according to the entries read under its prefix:
/// the read task's status, or `UNKNOWN` when no entry lies under it.
pub open spec fn status_read(project_id: Seq<char>, task_id: Seq<char>, entries: Seq<crate::queries::EntryView>) -> Seq<char> {
    match gather_task(task_prefix(project_id, task_id), task_id, entries) {
        Some(t) => t.status,
        None => unknown_status(),
    }
}

/// The current status of a task (see `status_read`).
pub fn current_status(project_id: &str, task_id: &str, entries: &Vec<StoreEntry>) -> (r: String)
    ensures
        r@ == status_read(project_id@, task_id@, entry_views(entries@)),
{
    match collect_task(project_id, task_id, entries) {
        Some(t) => t.status,
        None => String::from_str("UNKNOWN"),
    }
}

/// The writes of a status change from `old_status` to `new_status` (already
/// in upper case): the new status; the acceptance time when the task enters
/// a work-in-progress status from one that is not, otherwise the completion
/// time when the new status is the terminal one; and a history entry from
/// the old to the new status with the note, under the time of the change.
pub open spec fn status_writes(
    project_id: Seq<char>,
    task_id: Seq<char>,
    old_status: Seq<char>,
    new_status: Seq<char>,
    note: Seq<char>,
    now: Seq<char>,
) -> Seq<(Seq<char>, Seq<char>)> {
    let first = seq![(field_key(project_id, task_id, "status"@), new_status)];
    let with_time = if is_wip(new_status) && !is_wip(old_status) {
        first.push((field_key(project_id, task_id, "time_accepted"@), now))
    } else if is_terminal(new_status) {
        first.push((field_key(project_id, task_id, "time_completed"@), now))
    } else {
        first
    };
    with_time.push(
        (
            history_entry_key(project_id, task_id, now),
            history_json(now, old_status, new_status, note),
        ),
    )
}

/// The writes that set a task's status to `status` (stored in upper case),
/// given its current status: `NotFound` when the current status is
/// `UNKNOWN`, otherwise `status_writes` with the upper-case status.
pub fn update_status_writes(
    project_id: &str,
    task_id: &str,
    old_status: &str,
    status: &str,
    note: &str,
    now: &str,
) -> (r: Result<Vec<StoreWrite>, TaskError>)
    ensures
        old_status@ == unknown_status() <==> r is Err,
        match r {
            Ok(ws) => write_views(ws@) == status_writes(
                project_id@,
                task_id@,
                old_status@,
                uppercase(status@),
                note@,
                now@,
            ),
            Err(e) => e == TaskError::NotFound,
        },
{
    if same_text(old_status, "UNKNOWN") {
        return Err(TaskError::NotFound);
    }
    let new_status = to_upper(status);
    let mut out: Vec<StoreWrite> = Vec::new();
    out.push(write_of(field_key_text(project_id, task_id, "status"), new_status.as_str()));
    if is_wip_status(new_status.as_str()) && !is_wip_status(old_status) {
        out.push(write_of(field_key_text(project_id, task_id, "time_accepted"), now));
    } else if is_terminal_status(new_status.as_str()) {
        out.push(write_of(field_key_text(project_id, task_id, "time_completed"), now));
    }
    let record = encode_history(now, old_status, new_status.as_str(), note);
    out.push(write_of(history_entry_key_text(project_id, task_id, now), record.as_str()));
    assert(write_views(out@) =~= status_writes(
        project_id@,
        task_id@,
        old_status@,
        uppercase(status@),
        note@,
        now@,
    ));
    Ok(out)
}

/// The task to show after a change: the task read back, or `NotFound`
/// when nothing could be read back.
pub fn task_or_not_found(found: Option<Task>) -> (r: Result<Task, TaskError>)
    ensures
        match found {
            Some(t) => r == Ok::<Task, TaskError>(t),
            None => r == Err::<Task, TaskError>(TaskError::NotFound),
        },
{
    match found {
        Some(t) => Ok(t),
        None => Err(TaskError::NotFound),
    }
}

// ---------------------------------------------------------------------------
// Editing the acceptance criteria
// ---------------------------------------------------------------------------

/// The history note of a criteria edit.
pub open spec fn criteria_note() -> Seq<char> {
    "criteria updated"@
}

/// The writes of a criteria edit: the new criteria, and a history entry that
/// keeps the status, under the time of the edit.
pub open spec fn criteria_writes(
    project_id: Seq<char>,
    task_id: Seq<char>,
    status: Seq<char>,
    criteria: Seq<char>,
    now: Seq<char>,
) -> Seq<(Seq<char>, Seq<char>)> {
    seq![
        (field_key(project_id, task_id, "acceptance_criteria"@), criteria),
        (history_entry_key(project_id, task_id, now), history_json(now, status, status, criteria_note())),
    ]
}

/// The writes that replace a task's acceptance criteria, given its current
/// status: `NotFound` when the status is `UNKNOWN`, otherwise
/// `criteria_writes`.
pub fn edit_criteria_writes(
    project_id: &str,
    task_id: &str,
    status: &str,
    criteria: &str,
    now: &str,
) -> (r: Result<Vec<StoreWrite>, TaskError>)
    ensures
        status@ == unknown_status() <==> r is Err,
        match r {
            Ok(ws) => write_views(ws@) == criteria_writes(project_id@, task_id@, status@, criteria@, now@),
            Err(e) => e == TaskError::NotFound,
        },
{
    if same_text(status, "UNKNOWN") {
        return Err(TaskError::NotFound);
    }
    let mut out: Vec<StoreWrite> = Vec::new();
    out.push(write_of(field_key_text(project_id, task_id, "acceptance_criteria"), criteria));
    let record = encode_history(now, status, status, "criteria updated");
    out.push(write_of(history_entry_key_text(project_id, task_id, now), record.as_str()));
    assert(write_views(out@) =~= criteria_writes(project_id@, task_id@, status@, criteria@, now@));
    Ok(out)
}

// ---------------------------------------------------------------------------
// Deleting a task
// ---------------------------------------------------------------------------

/// The key expression that deleting a task removes: every key under the
/// task's prefix.
pub open spec fn task_wildcard(project_id: Seq<char>, task_id: Seq<char>) -> Seq<char> {
    task_prefix(project_id, task_id) + "**"@
}

/// Builds `task_wildcard(project_id, task_id)`.
pub fn delete_task_key(project_id: &str, task_id: &str) -> (r: String)
    ensures
        r@ == task_wildcard(project_id@, task_id@),
{
    let mut key = task_prefix_text(project_id, task_id);
    key.append("**");
    key
}

} // verus!
