//! Reading stored key/value entries into tasks and project summaries, and
//! ordering the summaries.
use vstd::prelude::*;

use crate::models::{fresh_task, history_views, opt_text, HistoryEntry, HistoryView, Task, TaskView};
use crate::text::{
    chars_equal, chars_of, chars_start_with, comma_items, compare_texts, copy_text, find_char,
    parsed_u32, parse_u32, same_text, slice_chars, split_comma_items, string_of,
    strip_prefix_chars, text_less, texts, to_upper, uppercase,
};

verus! {

/// The status of a finished task.
pub const TERMINAL_STATUS: &'static str = "COMPLETED";

/// The statuses of a task that is being worked on.
pub const WIP_STATUSES: [&'static str; 3] = ["IN_PROGRESS", "WIP", "RUNNING"];

// ---------------------------------------------------------------------------
// Status classes
// ---------------------------------------------------------------------------

/// The three groups that statuses fall into.
#[derive(Debug, Clone, Copy, PartialEq, Eq)]
pub enum StatusClass {
    Completed,
    Wip,
    Open,
}

/// Whether an upper-case status is the terminal one.
pub open spec fn is_terminal(upper: Seq<char>) -> bool {
    upper == "COMPLETED"@
}

/// Whether an upper-case status is one of the work-in-progress statuses.
pub open spec fn is_wip(upper: Seq<char>) -> bool {
    upper == "IN_PROGRESS"@ || upper == "WIP"@ || upper == "RUNNING"@
}

/// The class of an upper-case status: the terminal status is completed, the
/// work-in-progress statuses are in progress, everything else is open.
pub open spec fn class_of_upper(upper: Seq<char>) -> StatusClass {
    if is_terminal(upper) {
        StatusClass::Completed
    } else if is_wip(upper) {
        StatusClass::Wip
    } else {
        StatusClass::Open
    }
}

/// The class of a stored status, which is compared in upper case.
pub open spec fn class_of_status(status: Seq<char>) -> StatusClass {
    class_of_upper(uppercase(status))
}

/// Whether an upper-case status is the terminal one.
pub fn is_terminal_status(upper: &str) -> (r: bool)
    ensures
        r == is_terminal(upper@),
{
    same_text(upper, TERMINAL_STATUS)
}

/// Whether an upper-case status is one of the work-in-progress statuses.
pub fn is_wip_status(upper: &str) -> (r: bool)
    ensures
        r == is_wip(upper@),
{
    same_text(upper, WIP_STATUSES[0]) || same_text(upper, WIP_STATUSES[1]) || same_text(
        upper,
        WIP_STATUSES[2],
    )
}

/// The class of an upper-case status.
pub fn classify_upper(upper: &str) -> (c: StatusClass)
    ensures
        c == class_of_upper(upper@),
{
    if is_terminal_status(upper) {
        StatusClass::Completed
    } else if is_wip_status(upper) {
        StatusClass::Wip
    } else {
        StatusClass::Open
    }
}

/// The class of a stored status, compared in upper case.
pub fn classify_status(status: &str) -> (c: StatusClass)
    ensures
        c == class_of_status(status@),
{
    let upper = to_upper(status);
    classify_upper(upper.as_str())
}

// ---------------------------------------------------------------------------
// Stored entries and fields
// ---------------------------------------------------------------------------

/// A key and value read from the store, with the value read as a history
/// entry where it holds one (`None` where it does not).
#[derive(Debug, Clone, PartialEq)]
pub struct StoreEntry {
    pub key: String,
    pub value: String,
    pub history: Option<HistoryEntry>,
}

/// The mathematical value of a `StoreEntry`.
pub struct EntryView {
    pub key: Seq<char>,
    pub value: Seq<char>,
    pub history: Option<HistoryView>,
}

/// The view of an optional history entry.
pub open spec fn opt_history(h: Option<HistoryEntry>) -> Option<HistoryView> {
    match h {
        Some(e) => Some(e@),
        None => None,
    }
}

impl View for StoreEntry {
    type V = EntryView;

    open spec fn view(&self) -> EntryView {
        EntryView { key: self.key@, value: self.value@, history: opt_history(self.history) }
    }
}

/// The views of a list of entries.
pub open spec fn entry_views(es: Seq<StoreEntry>) -> Seq<EntryView> {
    es.map_values(|e: StoreEntry| e@)
}

/// The views of a list of tasks.
pub open spec fn task_views(ts: Seq<Task>) -> Seq<TaskView> {
    ts.map_values(|t: Task| t@)
}

/// What `serde_json` reads from a text as a JSON array of strings, if it
/// reads one.
pub uninterp spec fn json_string_array(text: Seq<char>) -> Option<Seq<Seq<char>>>;

/// `serde_json::from_str::<Vec<String>>`: the text read as a JSON array of
/// strings, or `None` where it is not one. The result is named
/// `json_string_array`; nothing more is claimed of it.
#[verifier::external_body]
fn parse_json_string_array(text: &str) -> (r: Option<Vec<String>>)
    ensures
        match r {
            Some(v) => json_string_array(text@) == Some(texts(v@)),
            None => json_string_array(text@) is None,
        },
{
    serde_json::from_str::<Vec<String>>(text).ok()
}

/// The list a stored list field holds: its JSON array of strings, or failing
/// that its comma-separated items.
pub open spec fn list_value(value: Seq<char>) -> Seq<Seq<char>> {
    match json_string_array(value) {
        Some(items) => items,
        None => comma_items(value),
    }
}

/// Reads a stored list field (see `list_value`).
pub fn read_list(value: &str) -> (r: Vec<String>)
    ensures
        texts(r@) == list_value(value@),
{
    match parse_json_string_array(value) {
        Some(items) => items,
        None => split_comma_items(value),
    }
}

/// The task after one stored field has been read into it. `field` is the
/// key's part after the task id, `value` the stored text, and `history` the
/// value read as a history entry where it is one. Unknown fields leave the
/// task as it was; a history field whose value is no history entry does too.
pub open spec fn applied(
    t: TaskView,
    field: Seq<char>,
    value: Seq<char>,
    history: Option<HistoryView>,
) -> TaskView {
    if field == "status"@ {
        TaskView { status: value, ..t }
    } else if field == "time_entered"@ {
        TaskView { time_entered: Some(value), ..t }
    } else if field == "time_accepted"@ {
        TaskView { time_accepted: Some(value), ..t }
    } else if field == "time_completed"@ {
        TaskView { time_completed: Some(value), ..t }
    } else if field == "acceptance_criteria"@ {
        TaskView { acceptance_criteria: Some(value), ..t }
    } else if field == "entered_by"@ {
        TaskView { entered_by: Some(value), ..t }
    } else if "history/"@.is_prefix_of(field) {
        match history {
            Some(h) => TaskView { history: t.history.push(h), ..t },
            None => t,
        }
    } else if field == "spec"@ {
        TaskView { spec: Some(value), ..t }
    } else if field == "depends_on"@ {
        TaskView { depends_on: list_value(value), ..t }
    } else if field == "blocks"@ {
        TaskView { blocks: list_value(value), ..t }
    } else if field == "test_files"@ {
        TaskView { test_files: list_value(value), ..t }
    } else if field == "implementation_files"@ {
        TaskView { implementation_files: list_value(value), ..t }
    } else if field == "tdd_phase"@ {
        TaskView { tdd_phase: Some(value), ..t }
    } else if field == "test_command"@ {
        TaskView { test_command: Some(value), ..t }
    } else if field == "verification_command"@ {
        TaskView { verification_command: Some(value), ..t }
    } else if field == "failure_reason"@ {
        TaskView { failure_reason: Some(value), ..t }
    } else if field == "attempt_count"@ {
        TaskView {
            attempt_count: match parsed_u32(value) {
                Some(n) => n,
                None => 0,
            },
            ..t
        }
    } else {
        t
    }
}

/// A copy of a history entry.
pub fn copy_history(h: &HistoryEntry) -> (r: HistoryEntry)
    ensures
        r@ == h@,
{
    HistoryEntry {
        timestamp: copy_text(&h.timestamp),
        from_status: copy_text(&h.from_status),
        to_status: copy_text(&h.to_status),
        note: copy_text(&h.note),
    }
}

/// Reads one stored field into a task (see `applied`).
pub fn apply_field(task: &mut Task, field_name: &str, value: &str, history: Option<HistoryEntry>)
    ensures
        final(task)@ == applied(old(task)@, field_name@, value@, opt_history(history)),
{
    if same_text(field_name, "status") {
        task.status = String::from_str(value);
    } else if same_text(field_name, "time_entered") {
        task.time_entered = Some(String::from_str(value));
    } else if same_text(field_name, "time_accepted") {
        task.time_accepted = Some(String::from_str(value));
    } else if same_text(field_name, "time_completed") {
        task.time_completed = Some(String::from_str(value));
    } else if same_text(field_name, "acceptance_criteria") {
        task.acceptance_criteria = Some(String::from_str(value));
    } else if same_text(field_name, "entered_by") {
        task.entered_by = Some(String::from_str(value));
    } else if chars_start_with(&chars_of(field_name), &chars_of("history/")) {
        match history {
            Some(entry) => {
                let ghost before = task.history@;
                task.history.push(entry);
                assert(history_views(task.history@) =~= history_views(before).push(entry@));
            },
            None => {},
        }
    } else if same_text(field_name, "spec") {
        task.spec = Some(String::from_str(value));
    } else if same_text(field_name, "depends_on") {
        task.depends_on = read_list(value);
    } else if same_text(field_name, "blocks") {
        task.blocks = read_list(value);
    } else if same_text(field_name, "test_files") {
        task.test_files = read_list(value);
    } else if same_text(field_name, "implementation_files") {
        task.implementation_files = read_list(value);
    } else if same_text(field_name, "tdd_phase") {
        task.tdd_phase = Some(String::from_str(value));
    } else if same_text(field_name, "test_command") {
        task.test_command = Some(String::from_str(value));
    } else if same_text(field_name, "verification_command") {
        task.verification_command = Some(String::from_str(value));
    } else if same_text(field_name, "failure_reason") {
        task.failure_reason = Some(String::from_str(value));
    } else if same_text(field_name, "attempt_count") {
        task.attempt_count = match parse_u32(value) {
            Some(n) => n,
            None => 0,
        };
    }
}


// ---------------------------------------------------------------------------
// Keys
// ---------------------------------------------------------------------------

/// The prefix of every key of a project's tasks: `projects/{project_id}/tasks/`.
pub open spec fn tasks_prefix(project_id: Seq<char>) -> Seq<char> {
    "projects/"@ + project_id + "/tasks/"@
}

/// The prefix of every key of one task: `projects/{project_id}/tasks/{task_id}/`.
pub open spec fn task_prefix(project_id: Seq<char>, task_id: Seq<char>) -> Seq<char> {
    tasks_prefix(project_id) + task_id + "/"@
}

/// Builds `tasks_prefix(project_id)`.
pub fn tasks_prefix_text(project_id: &str) -> (r: String)
    ensures
        r@ == tasks_prefix(project_id@),
{
    let mut out = String::from_str("projects/");
    out.append(project_id);
    out.append("/tasks/");
    out
}

/// Builds `task_prefix(project_id, task_id)`.
pub fn task_prefix_text(project_id: &str, task_id: &str) -> (r: String)
    ensures
        r@ == task_prefix(project_id@, task_id@),
{
    let mut out = tasks_prefix_text(project_id);
    out.append(task_id);
    out.append("/");
    out
}

/// The position of the first `c` in `s`, if any.
pub open spec fn index_of_char(s: Seq<char>, c: char) -> Option<nat>
    decreases s.len(),
{
    if s.len() == 0 {
        None
    } else if s[0] == c {
        Some(0)
    } else {
        match index_of_char(s.drop_first(), c) {
            Some(i) => Some(i + 1),
            None => None,
        }
    }
}

/// `index_of_char` is the first position holding `c`.
pub proof fn lemma_index_of_char(s: Seq<char>, c: char, i: int)
    requires
        0 <= i <= s.len(),
        forall|k: int| 0 <= k < i ==> s[k] != c,
    ensures
        i < s.len() && s[i] == c ==> index_of_char(s, c) == Some(i as nat),
        i == s.len() ==> index_of_char(s, c) is None,
    decreases s.len(),
{
    if s.len() > 0 && i > 0 {
        assert forall|k: int| 0 <= k < i - 1 implies s.drop_first()[k] != c by {
            assert(s.drop_first()[k] == s[k + 1]);
        }
        lemma_index_of_char(s.drop_first(), c, i - 1);
        if i < s.len() {
            assert(s.drop_first()[i - 1] == s[i]);
        }
    }
}

/// `s` split at its first `c` into what comes before and after it, as
/// `splitn(2, c)` does; without a `c`, all of `s` and an empty rest.
pub open spec fn split_first(s: Seq<char>, c: char) -> (Seq<char>, Seq<char>) {
    match index_of_char(s, c) {
        Some(i) => (s.take(i as int), s.skip(i as int + 1)),
        None => (s, Seq::<char>::empty()),
    }
}

/// The task id and field that a key under `prefix` names, or `None` for a
/// key outside `prefix`. The id is the part up to the next `/`, the field
/// everything after it.
pub open spec fn entry_target(prefix: Seq<char>, key: Seq<char>) -> Option<(Seq<char>, Seq<char>)> {
    if prefix.is_prefix_of(key) {
        Some(split_first(key.skip(prefix.len() as int), '/'))
    } else {
        None
    }
}

/// Splits `cs` at its first `c` (see `split_first`).
pub fn split_first_chars(cs: &Vec<char>, c: char) -> (r: (Vec<char>, Vec<char>))
    ensures
        (r.0@, r.1@) == split_first(cs@, c),
{
    match find_char(cs, c, 0) {
        Some(i) => {
            proof {
                lemma_index_of_char(cs@, c, i as int);
            }
            (slice_chars(cs, 0, i), slice_chars(cs, i + 1, cs.len()))
        },
        None => {
            proof {
                lemma_index_of_char(cs@, c, cs@.len() as int);
            }
            (slice_chars(cs, 0, cs.len()), Vec::new())
        },
    }
}

// ---------------------------------------------------------------------------
// Grouping the entries of a project into tasks
// ---------------------------------------------------------------------------

/// Whether no two tasks share an id.
pub open spec fn distinct_ids(ts: Seq<TaskView>) -> bool {
    forall|i: int, j: int| 0 <= i < ts.len() && 0 <= j < ts.len() && i != j ==> ts[i].id != ts[j].id
}

/// Whether some task has the given id.
pub open spec fn has_id(ts: Seq<TaskView>, id: Seq<char>) -> bool {
    exists|i: int| 0 <= i < ts.len() && ts[i].id == id
}

/// The position of the task with the given id (meaningful when `has_id`).
pub open spec fn position_of_id(ts: Seq<TaskView>, id: Seq<char>) -> int {
    choose|i: int| 0 <= i < ts.len() && ts[i].id == id
}

/// The tasks that a project's entries describe, in the order their ids
/// first occur: each entry under `prefix` is read, in order, into the task
/// its key names, which starts out fresh (see `applied`, `entry_target`).
/// Entries outside `prefix` are passed over.
pub open spec fn group_fields(prefix: Seq<char>, entries: Seq<EntryView>) -> Seq<TaskView>
    decreases entries.len(),
{
    if entries.len() == 0 {
        Seq::<TaskView>::empty()
    } else {
        let tasks = group_fields(prefix, entries.drop_last());
        let e = entries.last();
        match entry_target(prefix, e.key) {
            None => tasks,
            Some(target) => {
                let id = target.0;
                let field = target.1;
                if has_id(tasks, id) {
                    let i = position_of_id(tasks, id);
                    tasks.update(i, applied(tasks[i], field, e.value, e.history))
                } else {
                    tasks.push(applied(fresh_task(id), field, e.value, e.history))
                }
            },
        }
    }
}

/// Reading a field never changes a task's id.
pub proof fn lemma_applied_keeps_id(t: TaskView, field: Seq<char>, value: Seq<char>, history: Option<HistoryView>)
    ensures
        applied(t, field, value, history).id == t.id,
{
}

/// The grouped tasks have distinct ids.
pub proof fn lemma_group_fields_distinct(prefix: Seq<char>, entries: Seq<EntryView>)
    ensures
        distinct_ids(group_fields(prefix, entries)),
    decreases entries.len(),
{
    if entries.len() > 0 {
        lemma_group_fields_distinct(prefix, entries.drop_last());
        let tasks = group_fields(prefix, entries.drop_last());
        let e = entries.last();
        match entry_target(prefix, e.key) {
            None => {},
            Some(target) => {
                if has_id(tasks, target.0) {
                    let i = position_of_id(tasks, target.0);
                    lemma_applied_keeps_id(tasks[i], target.1, e.value, e.history);
                } else {
                    lemma_applied_keeps_id(fresh_task(target.0), target.1, e.value, e.history);
                }
            },
        }
    }
}

/// The position of the task with the given id among `tasks`, if any.
pub fn find_task(tasks: &Vec<Task>, id: &Vec<char>) -> (r: Option<usize>)
    requires
        distinct_ids(task_views(tasks@)),
    ensures
        match r {
            Some(i) => i < tasks.len() && has_id(task_views(tasks@), id@) && i == position_of_id(
                task_views(tasks@),
                id@,
            ),
            None => !has_id(task_views(tasks@), id@),
        },
{
    let ghost ts = task_views(tasks@);
    let mut j: usize = 0;
    while j < tasks.len()
        invariant
            j <= tasks.len(),
            ts == task_views(tasks@),
            distinct_ids(ts),
            forall|k: int| 0 <= k < j ==> ts[k].id != id@,
        decreases tasks.len() - j,
    {
        let tid = chars_of(tasks[j].id.as_str());
        if chars_equal(&tid, id) {
            assert(ts[j as int].id == id@);
            assert(has_id(ts, id@));
            let ghost p = position_of_id(ts, id@);
            assert(ts[p].id == id@);
            return Some(j);
        }
        j = j + 1;
    }
    None
}

/// The tasks of a project (see `group_fields`): the entries are the stored
/// keys and values read under `tasks_prefix(project_id)`.
pub fn collect_tasks(project_id: &str, entries: &Vec<StoreEntry>) -> (tasks: Vec<Task>)
    ensures
        task_views(tasks@) == group_fields(tasks_prefix(project_id@), entry_views(entries@)),
        distinct_ids(task_views(tasks@)),
{
    let prefix = chars_of(tasks_prefix_text(project_id).as_str());
    let ghost pv = tasks_prefix(project_id@);
    let ghost es = entry_views(entries@);
    let mut tasks: Vec<Task> = Vec::new();
    let mut i: usize = 0;
    assert(task_views(tasks@) =~= Seq::<TaskView>::empty());
    while i < entries.len()
        invariant
            i <= entries.len(),
            prefix@ == pv,
            es == entry_views(entries@),
            task_views(tasks@) == group_fields(pv, es.take(i as int)),
            distinct_ids(task_views(tasks@)),
        decreases entries.len() - i,
    {
        let entry = &entries[i];
        let key = chars_of(entry.key.as_str());
        let ghost before = task_views(tasks@);
        assert(es.take(i as int + 1).drop_last() =~= es.take(i as int));
        assert(es.take(i as int + 1).last() == entry@);
        proof {
            lemma_group_fields_distinct(pv, es.take(i as int + 1));
        }
        match strip_prefix_chars(&key, &prefix) {
            None => {},
            Some(relative) => {
                let (id, field) = split_first_chars(&relative, '/');
                let field_text = string_of(&field);
                let history = match &entry.history {
                    Some(h) => Some(copy_history(h)),
                    None => None,
                };
                match find_task(&tasks, &id) {
                    Some(j) => {
                        apply_field(&mut tasks[j], field_text.as_str(), entry.value.as_str(), history);
                        assert(task_views(tasks@) =~= before.update(
                            j as int,
                            applied(before[j as int], field@, entry.value@, opt_history(entry.history)),
                        ));
                    },
                    None => {
                        let id_text = string_of(&id);
                        let mut task = Task::new(id_text.as_str());
                        apply_field(&mut task, field_text.as_str(), entry.value.as_str(), history);
                        tasks.push(task);
                        assert(task_views(tasks@) =~= before.push(
                            applied(fresh_task(id@), field@, entry.value@, opt_history(entry.history)),
                        ));
                    },
                }
            },
        }
        i = i + 1;
    }
    assert(es.take(entries.len() as int) =~= es);
    tasks
}

// ---------------------------------------------------------------------------
// Reading one task
// ---------------------------------------------------------------------------

/// The task that the entries under one task's prefix describe, or `None`
/// when no entry lies under it: each such entry's field (the key's rest
/// after the prefix) is read, in order, into a task that starts out fresh.
pub open spec fn gather_task(prefix: Seq<char>, id: Seq<char>, entries: Seq<EntryView>) -> Option<TaskView>
    decreases entries.len(),
{
    if entries.len() == 0 {
        None
    } else {
        let found = gather_task(prefix, id, entries.drop_last());
        let e = entries.last();
        if prefix.is_prefix_of(e.key) {
            let base = match found {
                Some(t) => t,
                None => fresh_task(id),
            };
            Some(applied(base, e.key.skip(prefix.len() as int), e.value, e.history))
        } else {
            found
        }
    }
}

/// One task of a project (see `gather_task`): the entries are the stored
/// keys and values read under `task_prefix(project_id, task_id)`.
pub fn collect_task(project_id: &str, task_id: &str, entries: &Vec<StoreEntry>) -> (r: Option<Task>)
    ensures
        match r {
            Some(t) => gather_task(task_prefix(project_id@, task_id@), task_id@, entry_views(entries@)) == Some(t@),
            None => gather_task(task_prefix(project_id@, task_id@), task_id@, entry_views(entries@)) is None,
        },
{
    let prefix = chars_of(task_prefix_text(project_id, task_id).as_str());
    let ghost pv = task_prefix(project_id@, task_id@);
    let ghost es = entry_views(entries@);
    let mut result: Option<Task> = None;
    let mut i: usize = 0;
    while i < entries.len()
        invariant
            i <= entries.len(),
            prefix@ == pv,
            es == entry_views(entries@),
            match result {
                Some(t) => gather_task(pv, task_id@, es.take(i as int)) == Some(t@),
                None => gather_task(pv, task_id@, es.take(i as int)) is None,
            },
        decreases entries.len() - i,
    {
        let entry = &entries[i];
        let key = chars_of(entry.key.as_str());
        assert(es.take(i as int + 1).drop_last() =~= es.take(i as int));
        assert(es.take(i as int + 1).last() == entry@);
        match strip_prefix_chars(&key, &prefix) {
            None => {},
            Some(field) => {
                let field_text = string_of(&field);
                let history = match &entry.history {
                    Some(h) => Some(copy_history(h)),
                    None => None,
                };
                let mut task = match result {
                    Some(t) => t,
                    None => Task::new(task_id),
                };
                apply_field(&mut task, field_text.as_str(), entry.value.as_str(), history);
                result = Some(task);
            },
        }
        i = i + 1;
    }
    assert(es.take(entries.len() as int) =~= es);
    result
}


// ---------------------------------------------------------------------------
// Project summaries and their order
// ---------------------------------------------------------------------------

/// The counts shown for one project.
#[derive(Debug, Clone, PartialEq)]
pub struct ProjectSummary {
    pub id: String,
    pub total: usize,
    pub incomplete: usize,
    pub wip: usize,
    pub last_activity: Option<String>,
}

/// The mathematical value of a `ProjectSummary`.
pub struct SummaryView {
    pub id: Seq<char>,
    pub total: int,
    pub incomplete: int,
    pub wip: int,
    pub last_activity: Option<Seq<char>>,
}

impl View for ProjectSummary {
    type V = SummaryView;

    open spec fn view(&self) -> SummaryView {
        SummaryView {
            id: self.id@,
            total: self.total as int,
            incomplete: self.incomplete as int,
            wip: self.wip as int,
            last_activity: opt_text(self.last_activity),
        }
    }
}

/// The views of a list of summaries.
pub open spec fn summary_views(ps: Seq<ProjectSummary>) -> Seq<SummaryView> {
    ps.map_values(|p: ProjectSummary| p@)
}

/// The column that the project list is ordered by.
#[derive(Debug, Clone, Copy, PartialEq, Eq, Structural)]
pub enum SortKey {
    Name,
    Total,
    Incomplete,
    Wip,
    Activity,
}

/// The column named by a query text; unknown texts name the project name.
pub open spec fn sort_key_named(s: Seq<char>) -> SortKey {
    if s == "total"@ {
        SortKey::Total
    } else if s == "incomplete"@ {
        SortKey::Incomplete
    } else if s == "wip"@ {
        SortKey::Wip
    } else if s == "activity"@ {
        SortKey::Activity
    } else {
        SortKey::Name
    }
}

/// The query text of a column.
pub open spec fn sort_key_text(k: SortKey) -> Seq<char> {
    match k {
        SortKey::Name => "name"@,
        SortKey::Total => "total"@,
        SortKey::Incomplete => "incomplete"@,
        SortKey::Wip => "wip"@,
        SortKey::Activity => "activity"@,
    }
}

impl SortKey {
    /// The column a query text names (see `sort_key_named`).
    pub fn parse(s: &str) -> (k: SortKey)
        ensures
            k == sort_key_named(s@),
    {
        if same_text(s, "total") {
            SortKey::Total
        } else if same_text(s, "incomplete") {
            SortKey::Incomplete
        } else if same_text(s, "wip") {
            SortKey::Wip
        } else if same_text(s, "activity") {
            SortKey::Activity
        } else {
            SortKey::Name
        }
    }

    /// The query text of the column.
    pub fn as_str(self) -> (r: &'static str)
        ensures
            r@ == sort_key_text(self),
    {
        match self {
            SortKey::Name => "name",
            SortKey::Total => "total",
            SortKey::Incomplete => "incomplete",
            SortKey::Wip => "wip",
            SortKey::Activity => "activity",
        }
    }
}

/// The direction of the project list's order.
#[derive(Debug, Clone, Copy, PartialEq, Eq, Structural)]
pub enum SortDir {
    Asc,
    Desc,
}

/// The direction named by a query text: `desc` is descending, anything else
/// ascending.
pub open spec fn sort_dir_named(s: Seq<char>) -> SortDir {
    if s == "desc"@ {
        SortDir::Desc
    } else {
        SortDir::Asc
    }
}

/// The query text of a direction.
pub open spec fn sort_dir_text(d: SortDir) -> Seq<char> {
    match d {
        SortDir::Asc => "asc"@,
        SortDir::Desc => "desc"@,
    }
}

/// The other direction.
pub open spec fn flipped(d: SortDir) -> SortDir {
    match d {
        SortDir::Asc => SortDir::Desc,
        SortDir::Desc => SortDir::Asc,
    }
}

impl SortDir {
    /// The direction a query text names (see `sort_dir_named`).
    pub fn parse(s: &str) -> (d: SortDir)
        ensures
            d == sort_dir_named(s@),
    {
        if same_text(s, "desc") {
            SortDir::Desc
        } else {
            SortDir::Asc
        }
    }

    /// The query text of the direction.
    pub fn as_str(self) -> (r: &'static str)
        ensures
            r@ == sort_dir_text(self),
    {
        match self {
            SortDir::Asc => "asc",
            SortDir::Desc => "desc",
        }
    }

    /// The other direction.
    pub fn flip(self) -> (d: SortDir)
        ensures
            d == flipped(self),
    {
        match self {
            SortDir::Asc => SortDir::Desc,
            SortDir::Desc => SortDir::Asc,
        }
    }
}

/// Flipping a direction twice gives it back.
pub proof fn law_flip_twice(d: SortDir)
    ensures
        flipped(flipped(d)) == d,
{
}

/// Reading back the query text of a column gives the column.
pub proof fn law_sort_key_text_round_trip(k: SortKey)
    ensures
        sort_key_named(sort_key_text(k)) == k,
{
    reveal_strlit("name");
    reveal_strlit("total");
    reveal_strlit("incomplete");
    reveal_strlit("wip");
    reveal_strlit("activity");
    // the five texts differ in length
    assert("name"@.len() == 4 && "total"@.len() == 5 && "incomplete"@.len() == 10);
    assert("wip"@.len() == 3 && "activity"@.len() == 8);
}

/// Reading back the query text of a direction gives the direction.
pub proof fn law_sort_dir_text_round_trip(d: SortDir)
    ensures
        sort_dir_named(sort_dir_text(d)) == d,
{
    reveal_strlit("asc");
    reveal_strlit("desc");
    assert("asc"@.len() == 3 && "desc"@.len() == 4);
}

/// Optional texts in the order of `Option<String>`: nothing comes first,
/// texts in lexicographic order.
pub open spec fn opt_text_less(a: Option<Seq<char>>, b: Option<Seq<char>>) -> bool {
    match (a, b) {
        (None, Some(_)) => true,
        (Some(x), Some(y)) => text_less(x, y),
        _ => false,
    }
}

/// Whether `a` is less than `b` in the column `key`.
pub open spec fn key_less(a: SummaryView, b: SummaryView, key: SortKey) -> bool {
    match key {
        SortKey::Name => text_less(a.id, b.id),
        SortKey::Total => a.total < b.total,
        SortKey::Incomplete => a.incomplete < b.incomplete,
        SortKey::Wip => a.wip < b.wip,
        SortKey::Activity => opt_text_less(a.last_activity, b.last_activity),
    }
}

/// Whether `a` and `b` hold the same value in the column `key`.
pub open spec fn key_same(a: SummaryView, b: SummaryView, key: SortKey) -> bool {
    match key {
        SortKey::Name => a.id == b.id,
        SortKey::Total => a.total == b.total,
        SortKey::Incomplete => a.incomplete == b.incomplete,
        SortKey::Wip => a.wip == b.wip,
        SortKey::Activity => a.last_activity == b.last_activity,
    }
}

/// Whether `a` must come before `b` in the order of `key` and `dir`.
pub open spec fn goes_before(a: SummaryView, b: SummaryView, key: SortKey, dir: SortDir) -> bool {
    match dir {
        SortDir::Asc => key_less(a, b, key),
        SortDir::Desc => key_less(b, a, key),
    }
}

/// Whether no element of `s` must come before an element in front of it.
pub open spec fn sorted_for(s: Seq<SummaryView>, key: SortKey, dir: SortDir) -> bool {
    forall|i: int, j: int| 0 <= i < j < s.len() ==> !goes_before(#[trigger] s[j], #[trigger] s[i], key, dir)
}

/// The elements of `s` with the same `key` value as `e`, in their order in `s`.
pub open spec fn key_class(s: Seq<SummaryView>, e: SummaryView, key: SortKey) -> Seq<SummaryView> {
    s.filter(|x: SummaryView| key_same(x, e, key))
}

/// Whether `a` and `b` hold, for every value of `key`, the same elements
/// with that value in the same order (so equal elements keep their order).
pub open spec fn same_key_classes(a: Seq<SummaryView>, b: Seq<SummaryView>, key: SortKey) -> bool {
    forall|e: SummaryView| #[trigger] key_class(a, e, key) == key_class(b, e, key)
}

/// Of two summaries exactly one of: less, greater, same value in the column.
pub proof fn lemma_key_trichotomy(a: SummaryView, b: SummaryView, key: SortKey)
    ensures
        key_same(a, b, key) ==> !key_less(a, b, key) && !key_less(b, a, key),
        !key_same(a, b, key) ==> (key_less(a, b, key) != key_less(b, a, key)),
{
    match key {
        SortKey::Name => {
            crate::text::lemma_text_less_total(a.id, b.id);
        },
        SortKey::Activity => {
            match (a.last_activity, b.last_activity) {
                (Some(x), Some(y)) => {
                    crate::text::lemma_text_less_total(x, y);
                },
                _ => {},
            }
        },
        _ => {},
    }
}

/// The order of a column is transitive.
pub proof fn lemma_key_less_transitive(a: SummaryView, b: SummaryView, c: SummaryView, key: SortKey)
    requires
        key_less(a, b, key),
        key_less(b, c, key),
    ensures
        key_less(a, c, key),
{
    match key {
        SortKey::Name => {
            crate::text::lemma_text_less_transitive(a.id, b.id, c.id);
        },
        SortKey::Activity => {
            match (a.last_activity, b.last_activity, c.last_activity) {
                (Some(x), Some(y), Some(z)) => {
                    crate::text::lemma_text_less_transitive(x, y, z);
                },
                _ => {},
            }
        },
        _ => {},
    }
}

/// Not coming before is transitive, and coming before is asymmetric.
pub proof fn lemma_before_order(a: SummaryView, b: SummaryView, c: SummaryView, key: SortKey, dir: SortDir)
    ensures
        goes_before(a, b, key, dir) ==> !goes_before(b, a, key, dir),
        !goes_before(b, a, key, dir) && !goes_before(c, b, key, dir) ==> !goes_before(c, a, key, dir),
{
    lemma_key_trichotomy(a, b, key);
    lemma_key_trichotomy(b, c, key);
    lemma_key_trichotomy(a, c, key);
    if key_less(a, b, key) && key_less(b, c, key) {
        lemma_key_less_transitive(a, b, c, key);
    }
    if key_less(c, b, key) && key_less(b, a, key) {
        lemma_key_less_transitive(c, b, a, key);
    }
    if key_less(c, a, key) && key_less(a, b, key) {
        lemma_key_less_transitive(c, a, b, key);
    }
    if key_less(b, c, key) && key_less(c, a, key) {
        lemma_key_less_transitive(b, c, a, key);
    }
    if key_less(a, c, key) && key_less(c, b, key) {
        lemma_key_less_transitive(a, c, b, key);
    }
    if key_less(b, a, key) && key_less(a, c, key) {
        lemma_key_less_transitive(b, a, c, key);
    }
    match key {
        SortKey::Name => {},
        SortKey::Activity => {},
        _ => {},
    }
}

/// `s` with the elements at `k` and `k + 1` exchanged.
pub open spec fn swapped_at<T>(s: Seq<T>, k: int) -> Seq<T> {
    s.update(k, s[k + 1]).update(k + 1, s[k])
}

/// Exchanging two neighbours with different `key` values keeps the
/// elements and the order within each `key` value.
pub proof fn lemma_swap_keeps_classes(s: Seq<SummaryView>, k: int, key: SortKey)
    requires
        0 <= k,
        k + 1 < s.len(),
        !key_same(s[k], s[k + 1], key),
    ensures
        same_key_classes(swapped_at(s, k), s, key),
        swapped_at(s, k).to_multiset() == s.to_multiset(),
{
    let t = swapped_at(s, k);
    let pre = s.take(k);
    let post = s.skip(k + 2);
    let ab = seq![s[k], s[k + 1]];
    let ba = seq![s[k + 1], s[k]];
    assert(s =~= pre + ab + post);
    assert(t =~= pre + ba + post);
    assert forall|e: SummaryView| #[trigger] key_class(t, e, key) == key_class(s, e, key) by {
        let p = |x: SummaryView| key_same(x, e, key);
        broadcast use Seq::filter_distributes_over_add;
        assert(ab.filter(p) == ba.filter(p)) by {
            reveal_with_fuel(Seq::filter, 3);
            assert(ab.drop_last() =~= seq![s[k]]);
            assert(ba.drop_last() =~= seq![s[k + 1]]);
            assert(seq![s[k]].drop_last() =~= Seq::<SummaryView>::empty());
            assert(seq![s[k + 1]].drop_last() =~= Seq::<SummaryView>::empty());
            if p(s[k]) && p(s[k + 1]) {
                match key {
                    SortKey::Name => {},
                    _ => {},
                }
                assert(key_same(s[k], s[k + 1], key));
            }
            if p(s[k]) && !p(s[k + 1]) {
                assert(ab.filter(p) =~= seq![s[k]]);
                assert(ba.filter(p) =~= seq![s[k]]);
            }
            if !p(s[k]) && p(s[k + 1]) {
                assert(ab.filter(p) =~= seq![s[k + 1]]);
                assert(ba.filter(p) =~= seq![s[k + 1]]);
            }
        }
        assert((pre + ab + post).filter(p) == (pre + ab).filter(p) + post.filter(p));
        assert((pre + ba + post).filter(p) == (pre + ba).filter(p) + post.filter(p));
        assert((pre + ab).filter(p) == pre.filter(p) + ab.filter(p));
        assert((pre + ba).filter(p) == pre.filter(p) + ba.filter(p));
    }
    vstd::seq_lib::lemma_multiset_commutative(pre + ab, post);
    vstd::seq_lib::lemma_multiset_commutative(pre + ba, post);
    vstd::seq_lib::lemma_multiset_commutative(pre, ab);
    vstd::seq_lib::lemma_multiset_commutative(pre, ba);
    assert(ab.to_multiset() == ba.to_multiset()) by {
        broadcast use vstd::seq_lib::group_to_multiset_ensures;
        assert(ab =~= seq![s[k]].push(s[k + 1]));
        assert(ba =~= seq![s[k + 1]].push(s[k]));
        assert(seq![s[k]] =~= Seq::<SummaryView>::empty().push(s[k]));
        assert(seq![s[k + 1]] =~= Seq::<SummaryView>::empty().push(s[k + 1]));
        assert(ab.to_multiset() =~= ba.to_multiset());
    }
}

/// `<[T]>::swap`: claims that the elements at `i` and `j` are exchanged and
/// every other element stays where it was.
#[verifier::external_body]
pub(crate) fn swap_items<T>(v: &mut [T], i: usize, j: usize)
    requires
        i < old(v)@.len(),
        j < old(v)@.len(),
    ensures
        final(v)@ == old(v)@.update(i as int, old(v)@[j as int]).update(j as int, old(v)@[i as int]),
{
    v.swap(i, j);
}

/// Whether `a` is less than `b` in the column `key`.
pub fn less_in_column(a: &ProjectSummary, b: &ProjectSummary, key: SortKey) -> (r: bool)
    ensures
        r == key_less(a@, b@, key),
{
    match key {
        SortKey::Name => {
            let x = chars_of(a.id.as_str());
            let y = chars_of(b.id.as_str());
            compare_texts(&x, &y) == -1
        },
        SortKey::Total => a.total < b.total,
        SortKey::Incomplete => a.incomplete < b.incomplete,
        SortKey::Wip => a.wip < b.wip,
        SortKey::Activity => match (&a.last_activity, &b.last_activity) {
            (None, Some(_)) => true,
            (Some(x), Some(y)) => {
                let x = chars_of(x.as_str());
                let y = chars_of(y.as_str());
                compare_texts(&x, &y) == -1
            },
            _ => false,
        },
    }
}

/// Whether `a` must come before `b` in the order of `key` and `dir`.
pub fn comes_before(a: &ProjectSummary, b: &ProjectSummary, key: SortKey, dir: SortDir) -> (r: bool)
    ensures
        r == goes_before(a@, b@, key, dir),
{
    match dir {
        SortDir::Asc => less_in_column(a, b, key),
        SortDir::Desc => less_in_column(b, a, key),
    }
}

/// Orders the projects by the column `key` in the direction `dir`. The
/// order is stable: projects with the same value in the column keep their
/// order (in both directions). The result holds the same projects.
pub fn sort_projects(projects: &mut [ProjectSummary], key: SortKey, dir: SortDir)
    ensures
        sorted_for(summary_views(final(projects)@), key, dir),
        summary_views(final(projects)@).to_multiset() == summary_views(old(projects)@).to_multiset(),
        same_key_classes(summary_views(final(projects)@), summary_views(old(projects)@), key),
{
    let ghost orig = summary_views(projects@);
    let n = projects.len();
    if n == 0 {
        return;
    }
    let mut i: usize = 1;
    while i < n
        invariant
            1 <= i <= n,
            n == projects@.len(),
            orig.len() == n,
            forall|a: int, b: int| 0 <= a < b < i ==> !goes_before(
                #[trigger] summary_views(projects@)[b],
                #[trigger] summary_views(projects@)[a],
                key,
                dir,
            ),
            summary_views(projects@).to_multiset() == orig.to_multiset(),
            same_key_classes(summary_views(projects@), orig, key),
        decreases n - i,
    {
        let mut j: usize = i;
        while j > 0 && comes_before(&projects[j], &projects[j - 1], key, dir)
            invariant
                0 <= j <= i < n,
                n == projects@.len(),
                forall|a: int, b: int| 0 <= a < b < j ==> !goes_before(
                    #[trigger] summary_views(projects@)[b],
                    #[trigger] summary_views(projects@)[a],
                    key,
                    dir,
                ),
                forall|a: int, b: int| j < a < b <= i ==> !goes_before(
                    #[trigger] summary_views(projects@)[b],
                    #[trigger] summary_views(projects@)[a],
                    key,
                    dir,
                ),
                forall|a: int, b: int| 0 <= a < j && j < b <= i ==> !goes_before(
                    #[trigger] summary_views(projects@)[b],
                    #[trigger] summary_views(projects@)[a],
                    key,
                    dir,
                ),
                forall|b: int| j < b <= i ==> goes_before(
                    summary_views(projects@)[j as int],
                    #[trigger] summary_views(projects@)[b],
                    key,
                    dir,
                ),
                summary_views(projects@).to_multiset() == orig.to_multiset(),
                same_key_classes(summary_views(projects@), orig, key),
            decreases j,
        {
            let ghost vs = summary_views(projects@);
            proof {
                lemma_key_trichotomy(vs[j - 1], vs[j as int], key);
                lemma_swap_keeps_classes(vs, j - 1, key);
            }
            swap_items(projects, j - 1, j);
            proof {
                let ws = summary_views(projects@);
                assert(ws =~= swapped_at(vs, j - 1));
                assert forall|e: SummaryView| #[trigger] key_class(ws, e, key) == key_class(orig, e, key) by {
                    assert(key_class(swapped_at(vs, j - 1), e, key) == key_class(vs, e, key));
                }
                assert forall|a: int, b: int| j - 1 < a < b <= i implies !goes_before(
                    #[trigger] ws[b],
                    #[trigger] ws[a],
                    key,
                    dir,
                ) by {
                    if a == j {
                        assert(ws[a] == vs[j - 1]);
                        assert(ws[b] == vs[b]);
                    }
                }
                assert forall|a: int, b: int| 0 <= a < j - 1 && j - 1 < b <= i implies !goes_before(
                    #[trigger] ws[b],
                    #[trigger] ws[a],
                    key,
                    dir,
                ) by {
                    if b == j {
                        assert(ws[b] == vs[j - 1]);
                    }
                }
                assert forall|b: int| j - 1 < b <= i implies goes_before(
                    ws[j - 1],
                    #[trigger] ws[b],
                    key,
                    dir,
                ) by {
                    if b == j {
                        assert(ws[b] == vs[j - 1]);
                    }
                }
            }
            j = j - 1;
        }
        proof {
            let vs = summary_views(projects@);
            assert forall|a: int, b: int| 0 <= a < b < i + 1 implies !goes_before(
                #[trigger] vs[b],
                #[trigger] vs[a],
                key,
                dir,
            ) by {
                if b == j && a < j {
                    if a < j - 1 {
                        assert(!goes_before(vs[j - 1], vs[a], key, dir));
                    }
                    lemma_before_order(vs[a], vs[j - 1], vs[j as int], key, dir);
                } else if a == j {
                    lemma_before_order(vs[a], vs[b], vs[b], key, dir);
                }
            }
        }
        i = i + 1;
    }
}


// ---------------------------------------------------------------------------
// Summarising all projects
// ---------------------------------------------------------------------------

/// The project id a key names: its part between the first and the second
/// `/` (or the end), which is the second piece of `key.split('/')`; `None`
/// for a key without `/`.
pub open spec fn project_of_key(key: Seq<char>) -> Option<Seq<char>> {
    match index_of_char(key, '/') {
        Some(i) => Some(split_first(key.skip(i as int + 1), '/').0),
        None => None,
    }
}

/// The project id a key names (see `project_of_key`).
pub fn project_segment(key: &Vec<char>) -> (r: Option<Vec<char>>)
    ensures
        match r {
            Some(p) => project_of_key(key@) == Some(p@),
            None => project_of_key(key@) is None,
        },
{
    match find_char(key, '/', 0) {
        Some(i) => {
            proof {
                lemma_index_of_char(key@, '/', i as int);
            }
            let rest = slice_chars(key, i + 1, key.len());
            let (segment, _) = split_first_chars(&rest, '/');
            Some(segment)
        },
        None => {
            proof {
                lemma_index_of_char(key@, '/', key@.len() as int);
            }
            None
        },
    }
}

/// Whether some summary has the given id.
pub open spec fn has_project(ss: Seq<SummaryView>, id: Seq<char>) -> bool {
    exists|i: int| 0 <= i < ss.len() && ss[i].id == id
}

/// The position of the summary with the given id (meaningful when `has_project`).
pub open spec fn position_of_project(ss: Seq<SummaryView>, id: Seq<char>) -> int {
    choose|i: int| 0 <= i < ss.len() && ss[i].id == id
}

/// Whether no two summaries share an id.
pub open spec fn distinct_projects(ss: Seq<SummaryView>) -> bool {
    forall|i: int, j: int| 0 <= i < ss.len() && 0 <= j < ss.len() && i != j ==> ss[i].id != ss[j].id
}

/// A summary of a project with no tasks counted yet.
pub open spec fn empty_summary(id: Seq<char>) -> SummaryView {
    SummaryView { id: id, total: 0, incomplete: 0, wip: 0, last_activity: None }
}

/// A summary with one more task of the given status counted: every task
/// counts in the total, those whose upper-case status is not the terminal
/// one count as incomplete, those with a work-in-progress status count as
/// in progress.
pub open spec fn counted(s: SummaryView, status: Seq<char>) -> SummaryView {
    let u = uppercase(status);
    SummaryView {
        total: s.total + 1,
        incomplete: if is_terminal(u) {
            s.incomplete
        } else {
            s.incomplete + 1
        },
        wip: if is_wip(u) {
            s.wip + 1
        } else {
            s.wip
        },
        ..s
    }
}

/// The summaries that status entries give, in the order their projects
/// first occur: each entry whose key names a project counts its value (the
/// status) into that project's summary.
pub open spec fn tally(entries: Seq<EntryView>) -> Seq<SummaryView>
    decreases entries.len(),
{
    if entries.len() == 0 {
        Seq::<SummaryView>::empty()
    } else {
        let ss = tally(entries.drop_last());
        let e = entries.last();
        match project_of_key(e.key) {
            None => ss,
            Some(p) => {
                if has_project(ss, p) {
                    let i = position_of_project(ss, p);
                    ss.update(i, counted(ss[i], e.value))
                } else {
                    ss.push(counted(empty_summary(p), e.value))
                }
            },
        }
    }
}

/// The later of a recorded activity time and a new one (texts compared
/// lexicographically); a first time is always taken.
pub open spec fn later_activity(current: Option<Seq<char>>, ts: Seq<char>) -> Option<Seq<char>> {
    match current {
        Some(x) => if text_less(x, ts) {
            Some(ts)
        } else {
            current
        },
        None => Some(ts),
    }
}

/// The summaries with the history entries' times folded in: each entry
/// whose key names a summarised project and whose value is a history entry
/// moves that project's last activity to the later of the two times.
pub open spec fn note_activity(ss: Seq<SummaryView>, entries: Seq<EntryView>) -> Seq<SummaryView>
    decreases entries.len(),
{
    if entries.len() == 0 {
        ss
    } else {
        let before = note_activity(ss, entries.drop_last());
        let e = entries.last();
        match (project_of_key(e.key), e.history) {
            (Some(p), Some(h)) => {
                if has_project(before, p) {
                    let i = position_of_project(before, p);
                    before.update(
                        i,
                        SummaryView {
                            last_activity: later_activity(before[i].last_activity, h.timestamp),
                            ..before[i]
                        },
                    )
                } else {
                    before
                }
            },
            _ => before,
        }
    }
}

/// Whether a summary's counts are consistent: no more tasks in progress
/// than incomplete ones, and no more incomplete ones than tasks.
pub open spec fn counts_consistent(s: SummaryView) -> bool {
    0 <= s.wip <= s.incomplete <= s.total
}

/// The tallied summaries have distinct ids, consistent counts, and totals
/// no larger than the number of entries.
pub proof fn lemma_tally_wf(entries: Seq<EntryView>)
    ensures
        distinct_projects(tally(entries)),
        forall|i: int| 0 <= i < tally(entries).len() ==> #[trigger] counts_consistent(tally(entries)[i]),
        forall|i: int| 0 <= i < tally(entries).len() ==> #[trigger] tally(entries)[i].total <= entries.len(),
        forall|i: int| 0 <= i < tally(entries).len() ==> #[trigger] tally(entries)[i].last_activity is None,
    decreases entries.len(),
{
    reveal_strlit("COMPLETED");
    reveal_strlit("IN_PROGRESS");
    reveal_strlit("WIP");
    reveal_strlit("RUNNING");
    assert("COMPLETED"@.len() == 9 && "IN_PROGRESS"@.len() == 11 && "WIP"@.len() == 3 && "RUNNING"@.len() == 7);
    if entries.len() > 0 {
        lemma_tally_wf(entries.drop_last());
        let ss = tally(entries.drop_last());
        let e = entries.last();
        match project_of_key(e.key) {
            None => {},
            Some(p) => {
                let u = uppercase(e.value);
                assert(is_wip(u) ==> !is_terminal(u));
                if has_project(ss, p) {
                    let i = position_of_project(ss, p);
                    assert(counts_consistent(ss[i]));
                    assert(ss[i].total <= entries.len() - 1);
                }
            },
        }
    }
}

/// The folded summaries keep ids, counts and order; only last activity changes.
pub proof fn lemma_note_activity_keeps(ss: Seq<SummaryView>, entries: Seq<EntryView>)
    ensures
        note_activity(ss, entries).len() == ss.len(),
        forall|i: int| 0 <= i < ss.len() ==> {
            &&& #[trigger] note_activity(ss, entries)[i].id == ss[i].id
            &&& note_activity(ss, entries)[i].total == ss[i].total
            &&& note_activity(ss, entries)[i].incomplete == ss[i].incomplete
            &&& note_activity(ss, entries)[i].wip == ss[i].wip
        },
    decreases entries.len(),
{
    if entries.len() > 0 {
        lemma_note_activity_keeps(ss, entries.drop_last());
    }
}

/// The position of the summary with the given id, if any.
pub fn find_summary(ss: &Vec<ProjectSummary>, id: &Vec<char>) -> (r: Option<usize>)
    requires
        distinct_projects(summary_views(ss@)),
    ensures
        match r {
            Some(i) => i < ss.len() && has_project(summary_views(ss@), id@) && i
                == position_of_project(summary_views(ss@), id@),
            None => !has_project(summary_views(ss@), id@),
        },
{
    let ghost vs = summary_views(ss@);
    let mut j: usize = 0;
    while j < ss.len()
        invariant
            j <= ss.len(),
            vs == summary_views(ss@),
            distinct_projects(vs),
            forall|k: int| 0 <= k < j ==> vs[k].id != id@,
        decreases ss.len() - j,
    {
        let pid = chars_of(ss[j].id.as_str());
        if chars_equal(&pid, id) {
            assert(vs[j as int].id == id@);
            assert(has_project(vs, id@));
            let ghost p = position_of_project(vs, id@);
            assert(vs[p].id == id@);
            return Some(j);
        }
        j = j + 1;
    }
    None
}

/// Counts the status entries into per-project summaries (see `tally`).
pub fn tally_statuses(status_entries: &Vec<StoreEntry>) -> (r: Vec<ProjectSummary>)
    ensures
        summary_views(r@) == tally(entry_views(status_entries@)),
{
    let ghost es = entry_views(status_entries@);
    let mut out: Vec<ProjectSummary> = Vec::new();
    let mut i: usize = 0;
    assert(summary_views(out@) =~= Seq::<SummaryView>::empty());
    while i < status_entries.len()
        invariant
            i <= status_entries.len(),
            es == entry_views(status_entries@),
            summary_views(out@) == tally(es.take(i as int)),
        decreases status_entries.len() - i,
    {
        let entry = &status_entries[i];
        let key = chars_of(entry.key.as_str());
        let ghost before = summary_views(out@);
        proof {
            lemma_tally_wf(es.take(i as int));
            assert(es.take(i as int + 1).drop_last() =~= es.take(i as int));
            assert(es.take(i as int + 1).last() == entry@);
        }
        match project_segment(&key) {
            None => {},
            Some(p) => {
                let upper = to_upper(entry.value.as_str());
                let terminal = is_terminal_status(upper.as_str());
                let wip = is_wip_status(upper.as_str());
                match find_summary(&out, &p) {
                    Some(j) => {
                        assert(before[j as int].total <= i);
                        assert(counts_consistent(before[j as int]));
                        assert(out@[j as int]@ == before[j as int]);
                        let summary = &mut out[j];
                        summary.total = summary.total + 1;
                        if !terminal {
                            summary.incomplete = summary.incomplete + 1;
                        }
                        if wip {
                            summary.wip = summary.wip + 1;
                        }
                        assert(summary_views(out@) =~= before.update(
                            j as int,
                            counted(before[j as int], entry.value@),
                        ));
                    },
                    None => {
                        let summary = ProjectSummary {
                            id: string_of(&p),
                            total: 1,
                            incomplete: if terminal {
                                0
                            } else {
                                1
                            },
                            wip: if wip {
                                1
                            } else {
                                0
                            },
                            last_activity: None,
                        };
                        out.push(summary);
                        assert(summary_views(out@) =~= before.push(
                            counted(empty_summary(p@), entry.value@),
                        ));
                    },
                }
            },
        }
        i = i + 1;
    }
    assert(es.take(status_entries.len() as int) =~= es);
    out
}

/// Folds the history entries' times into the summaries (see `note_activity`).
pub fn record_activity(summaries: &mut Vec<ProjectSummary>, history_entries: &Vec<StoreEntry>)
    requires
        distinct_projects(summary_views(old(summaries)@)),
    ensures
        summary_views(final(summaries)@) == note_activity(
            summary_views(old(summaries)@),
            entry_views(history_entries@),
        ),
{
    let ghost start = summary_views(summaries@);
    let ghost es = entry_views(history_entries@);
    let mut i: usize = 0;
    while i < history_entries.len()
        invariant
            i <= history_entries.len(),
            es == entry_views(history_entries@),
            distinct_projects(start),
            summary_views(summaries@) == note_activity(start, es.take(i as int)),
        decreases history_entries.len() - i,
    {
        let entry = &history_entries[i];
        let key = chars_of(entry.key.as_str());
        let ghost before = summary_views(summaries@);
        proof {
            lemma_note_activity_keeps(start, es.take(i as int));
            assert(distinct_projects(before));
            assert(es.take(i as int + 1).drop_last() =~= es.take(i as int));
            assert(es.take(i as int + 1).last() == entry@);
        }
        match project_segment(&key) {
            None => {},
            Some(p) => {
                match find_summary(summaries, &p) {
                    None => {},
                    Some(j) => {
                        match &entry.history {
                            None => {},
                            Some(h) => {
                                let ts = chars_of(h.timestamp.as_str());
                                let take = match &summaries[j].last_activity {
                                    Some(existing) => {
                                        let x = chars_of(existing.as_str());
                                        compare_texts(&x, &ts) == -1
                                    },
                                    None => true,
                                };
                                if take {
                                    summaries[j].last_activity = Some(copy_text(&h.timestamp));
                                }
                                assert(summary_views(summaries@) =~= before.update(
                                    j as int,
                                    SummaryView {
                                        last_activity: later_activity(
                                            before[j as int].last_activity,
                                            h.timestamp@,
                                        ),
                                        ..before[j as int]
                                    },
                                ));
                            },
                        }
                    },
                }
            },
        }
        i = i + 1;
    }
    assert(es.take(history_entries.len() as int) =~= es);
}

/// The summaries of all projects, ordered by project id. `status_entries`
/// are the stored status keys and values of all tasks of all projects
/// (`projects/*/tasks/*/status`), `history_entries` their history keys and
/// values (`projects/*/tasks/*/history/*`). The result holds exactly the
/// summaries of `note_activity(tally(status_entries), history_entries)`.
pub fn summarize_projects(status_entries: &Vec<StoreEntry>, history_entries: &Vec<StoreEntry>) -> (r: Vec<ProjectSummary>)
    ensures
        summary_views(r@).to_multiset() == note_activity(
            tally(entry_views(status_entries@)),
            entry_views(history_entries@),
        ).to_multiset(),
        sorted_for(summary_views(r@), SortKey::Name, SortDir::Asc),
        forall|i: int| 0 <= i < r@.len() ==> #[trigger] counts_consistent(summary_views(r@)[i]),
{
    let mut summaries = tally_statuses(status_entries);
    let ghost tallied = tally(entry_views(status_entries@));
    proof {
        lemma_tally_wf(entry_views(status_entries@));
        lemma_note_activity_keeps(tallied, entry_views(history_entries@));
    }
    record_activity(&mut summaries, history_entries);
    sort_projects(summaries.as_mut_slice(), SortKey::Name, SortDir::Asc);
    proof {
        let na = note_activity(tallied, entry_views(history_entries@));
        let vs = summary_views(summaries@);
        assert forall|i: int| 0 <= i < summaries@.len() implies #[trigger] counts_consistent(vs[i]) by {
            broadcast use vstd::seq_lib::group_to_multiset_ensures;
            assert(vs.contains(vs[i]));
            assert(na.to_multiset().count(vs[i]) > 0);
            assert(na.contains(vs[i]));
            let j = choose|j: int| 0 <= j < na.len() && na[j] == vs[i];
            assert(counts_consistent(tallied[j]));
            assert(na[j].id == tallied[j].id);
            assert(counts_consistent(na[j]));
        }
    }
    summaries
}

} // verus!
