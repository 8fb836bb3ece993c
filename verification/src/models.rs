//! The task data model.
use vstd::prelude::*;

use crate::text::texts;

verus! {

/// One recorded status change of a task.
#[derive(Debug, Clone, PartialEq)]
pub struct HistoryEntry {
    pub timestamp: String,
    pub from_status: String,
    pub to_status: String,
    pub note: String,
}

/// The mathematical value of a `HistoryEntry`.
pub struct HistoryView {
    pub timestamp: Seq<char>,
    pub from_status: Seq<char>,
    pub to_status: Seq<char>,
    pub note: Seq<char>,
}

impl View for HistoryEntry {
    type V = HistoryView;

    open spec fn view(&self) -> HistoryView {
        HistoryView {
            timestamp: self.timestamp@,
            from_status: self.from_status@,
            to_status: self.to_status@,
            note: self.note@,
        }
    }
}

/// A task as it is stored field by field under its key.
#[derive(Debug, Clone, PartialEq)]
pub struct Task {
    pub id: String,
    pub status: String,
    pub time_entered: Option<String>,
    pub time_accepted: Option<String>,
    pub time_completed: Option<String>,
    pub acceptance_criteria: Option<String>,
    pub entered_by: Option<String>,
    pub history: Vec<HistoryEntry>,
    // SDD fields
    pub spec: Option<String>,
    pub depends_on: Vec<String>,
    pub blocks: Vec<String>,
    // TDD fields
    pub test_files: Vec<String>,
    pub implementation_files: Vec<String>,
    pub tdd_phase: Option<String>,
    pub test_command: Option<String>,
    pub verification_command: Option<String>,
    // Execution metadata
    pub failure_reason: Option<String>,
    pub attempt_count: u32,
}

/// The mathematical value of a `Task`.
pub struct TaskView {
    pub id: Seq<char>,
    pub status: Seq<char>,
    pub time_entered: Option<Seq<char>>,
    pub time_accepted: Option<Seq<char>>,
    pub time_completed: Option<Seq<char>>,
    pub acceptance_criteria: Option<Seq<char>>,
    pub entered_by: Option<Seq<char>>,
    pub history: Seq<HistoryView>,
    pub spec: Option<Seq<char>>,
    pub depends_on: Seq<Seq<char>>,
    pub blocks: Seq<Seq<char>>,
    pub test_files: Seq<Seq<char>>,
    pub implementation_files: Seq<Seq<char>>,
    pub tdd_phase: Option<Seq<char>>,
    pub test_command: Option<Seq<char>>,
    pub verification_command: Option<Seq<char>>,
    pub failure_reason: Option<Seq<char>>,
    pub attempt_count: u32,
}

/// The view of an optional text.
pub open spec fn opt_text(o: Option<String>) -> Option<Seq<char>> {
    match o {
        Some(s) => Some(s@),
        None => None,
    }
}

/// The views of a list of history entries.
pub open spec fn history_views(h: Seq<HistoryEntry>) -> Seq<HistoryView> {
    h.map_values(|e: HistoryEntry| e@)
}

impl View for Task {
    type V = TaskView;

    open spec fn view(&self) -> TaskView {
        TaskView {
            id: self.id@,
            status: self.status@,
            time_entered: opt_text(self.time_entered),
            time_accepted: opt_text(self.time_accepted),
            time_completed: opt_text(self.time_completed),
            acceptance_criteria: opt_text(self.acceptance_criteria),
            entered_by: opt_text(self.entered_by),
            history: history_views(self.history@),
            spec: opt_text(self.spec),
            depends_on: texts(self.depends_on@),
            blocks: texts(self.blocks@),
            test_files: texts(self.test_files@),
            implementation_files: texts(self.implementation_files@),
            tdd_phase: opt_text(self.tdd_phase),
            test_command: opt_text(self.test_command),
            verification_command: opt_text(self.verification_command),
            failure_reason: opt_text(self.failure_reason),
            attempt_count: self.attempt_count,
        }
    }
}

/// The status of a task that nothing has been recorded for.
pub open spec fn unknown_status() -> Seq<char> {
    "UNKNOWN"@
}

/// A fresh task with the given id: status `UNKNOWN`, no times, criteria,
/// origin, spec, phase, commands or failure, empty history and lists, and
/// no attempts.
pub open spec fn fresh_task(id: Seq<char>) -> TaskView {
    TaskView {
        id: id,
        status: unknown_status(),
        time_entered: None,
        time_accepted: None,
        time_completed: None,
        acceptance_criteria: None,
        entered_by: None,
        history: Seq::empty(),
        spec: None,
        depends_on: Seq::empty(),
        blocks: Seq::empty(),
        test_files: Seq::empty(),
        implementation_files: Seq::empty(),
        tdd_phase: None,
        test_command: None,
        verification_command: None,
        failure_reason: None,
        attempt_count: 0,
    }
}

impl Task {
    /// A fresh task with the given id (see `fresh_task`).
    pub fn new(id: &str) -> (task: Task)
        ensures
            task@ == fresh_task(id@),
    {
        let task = Task {
            id: String::from_str(id),
            status: String::from_str("UNKNOWN"),
            time_entered: None,
            time_accepted: None,
            time_completed: None,
            acceptance_criteria: None,
            entered_by: None,
            history: Vec::new(),
            // SDD fields
            spec: None,
            depends_on: Vec::new(),
            blocks: Vec::new(),
            // TDD fields
            test_files: Vec::new(),
            implementation_files: Vec::new(),
            tdd_phase: None,
            test_command: None,
            verification_command: None,
            // Execution metadata
            failure_reason: None,
            attempt_count: 0,
        };
        assert(task@.history =~= Seq::<HistoryView>::empty());
        assert(task@.depends_on =~= Seq::<Seq<char>>::empty());
        assert(task@.blocks =~= Seq::<Seq<char>>::empty());
        assert(task@.test_files =~= Seq::<Seq<char>>::empty());
        assert(task@.implementation_files =~= Seq::<Seq<char>>::empty());
        task
    }
}

} // verus!
