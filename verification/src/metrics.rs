//! Counts and texts for a project's metrics page.
use vstd::prelude::*;

use crate::models::{Task, TaskView};
use crate::queries::{class_of_status, classify_status, task_views, StatusClass};
use crate::text::{decimal, decimal_text};

verus! {

/// How many of a project's tasks are completed, in progress and open.
#[derive(Debug, Clone, Copy, PartialEq)]
pub struct StatusBreakdown {
    pub completed: usize,
    pub wip: usize,
    pub open: usize,
}

/// The tasks whose status falls into class `c`.
pub open spec fn tasks_in_class(ts: Seq<TaskView>, c: StatusClass) -> Seq<TaskView> {
    ts.filter(|t: TaskView| class_of_status(t.status) == c)
}

/// Every task falls into exactly one class.
pub proof fn lemma_classes_partition(ts: Seq<TaskView>)
    ensures
        tasks_in_class(ts, StatusClass::Completed).len() + tasks_in_class(ts, StatusClass::Wip).len()
            + tasks_in_class(ts, StatusClass::Open).len() == ts.len(),
    decreases ts.len(),
{
    reveal_with_fuel(Seq::filter, 1);
    if ts.len() > 0 {
        lemma_classes_partition(ts.drop_last());
    }
}

/// Counts the tasks by the class of their status (compared in upper case):
/// the terminal status is completed, the work-in-progress statuses are in
/// progress, everything else is open. Every task is counted once.
pub fn compute_status_breakdown(tasks: &[Task]) -> (b: StatusBreakdown)
    ensures
        b.completed == tasks_in_class(task_views(tasks@), StatusClass::Completed).len(),
        b.wip == tasks_in_class(task_views(tasks@), StatusClass::Wip).len(),
        b.open == tasks_in_class(task_views(tasks@), StatusClass::Open).len(),
        b.completed + b.wip + b.open == tasks@.len(),
{
    let ghost ts = task_views(tasks@);
    let mut breakdown = StatusBreakdown { completed: 0, wip: 0, open: 0 };
    let mut i: usize = 0;
    while i < tasks.len()
        invariant
            i <= tasks@.len(),
            ts == task_views(tasks@),
            breakdown.completed == tasks_in_class(ts.take(i as int), StatusClass::Completed).len(),
            breakdown.wip == tasks_in_class(ts.take(i as int), StatusClass::Wip).len(),
            breakdown.open == tasks_in_class(ts.take(i as int), StatusClass::Open).len(),
        decreases tasks@.len() - i,
    {
        proof {
            reveal_with_fuel(Seq::filter, 1);
            assert(ts.take(i as int + 1).drop_last() =~= ts.take(i as int));
            assert(ts.take(i as int + 1).last() == tasks@[i as int]@);
            lemma_classes_partition(ts.take(i as int));
        }
        match classify_status(tasks[i].status.as_str()) {
            StatusClass::Completed => {
                breakdown.completed = breakdown.completed + 1;
            },
            StatusClass::Wip => {
                breakdown.wip = breakdown.wip + 1;
            },
            StatusClass::Open => {
                breakdown.open = breakdown.open + 1;
            },
        }
        i = i + 1;
    }
    proof {
        assert(ts.take(tasks@.len() as int) =~= ts);
        lemma_classes_partition(ts);
    }
    breakdown
}

/// One slice of the status donut: its label, colour and task count.
#[derive(Debug, Clone, Copy, PartialEq)]
pub struct DonutBucket {
    pub label: &'static str,
    pub color: &'static str,
    pub count: usize,
}

/// The slices of the status donut: none when there are no tasks, otherwise
/// completed (`#2e7d32`), in progress (`#f9a825`) and open (`#757575`), in
/// that order, with their counts.
pub fn donut_buckets(breakdown: &StatusBreakdown) -> (r: Vec<DonutBucket>)
    requires
        breakdown.completed + breakdown.wip + breakdown.open <= usize::MAX,
    ensures
        breakdown.completed + breakdown.wip + breakdown.open == 0 ==> r@.len() == 0,
        breakdown.completed + breakdown.wip + breakdown.open > 0 ==> {
            &&& r@.len() == 3
            &&& r@[0].label@ == "Completed"@ && r@[0].color@ == "#2e7d32"@
            &&& r@[0].count == breakdown.completed
            &&& r@[1].label@ == "WIP"@ && r@[1].color@ == "#f9a825"@
            &&& r@[1].count == breakdown.wip
            &&& r@[2].label@ == "Open"@ && r@[2].color@ == "#757575"@
            &&& r@[2].count == breakdown.open
        },
{
    let total = breakdown.completed + breakdown.wip + breakdown.open;
    let mut out: Vec<DonutBucket> = Vec::new();
    if total == 0 {
        return out;
    }
    out.push(DonutBucket { label: "Completed", color: "#2e7d32", count: breakdown.completed });
    out.push(DonutBucket { label: "WIP", color: "#f9a825", count: breakdown.wip });
    out.push(DonutBucket { label: "Open", color: "#757575", count: breakdown.open });
    out
}

// ---------------------------------------------------------------------------
// Durations
// ---------------------------------------------------------------------------

/// How a duration of `total_minutes` minutes is shown: negative durations
/// as zero; at least a day as days and hours (`1d 3h`), at least an hour as
/// hours and minutes (`2h 15m`), otherwise minutes (`45m`).
pub open spec fn duration_text(total_minutes: int) -> Seq<char> {
    let m = if total_minutes < 0 {
        0
    } else {
        total_minutes
    };
    let days = m / 1440;
    let hours = (m % 1440) / 60;
    let minutes = m % 60;
    if days > 0 {
        decimal(days as nat) + "d "@ + decimal(hours as nat) + "h"@
    } else if hours > 0 {
        decimal(hours as nat) + "h "@ + decimal(minutes as nat) + "m"@
    } else {
        decimal(minutes as nat) + "m"@
    }
}

/// Shows a duration given in whole minutes (see `duration_text`).
pub fn format_minutes(total_minutes: i64) -> (r: String)
    ensures
        r@ == duration_text(total_minutes as int),
{
    let m: u64 = if total_minutes < 0 {
        0
    } else {
        total_minutes as u64
    };
    let days = m / 1440;
    let hours = (m % 1440) / 60;
    let minutes = m % 60;
    if days > 0 {
        let mut out = decimal_text(days);
        out.append("d ");
        let h = decimal_text(hours);
        out.append(h.as_str());
        out.append("h");
        out
    } else if hours > 0 {
        let mut out = decimal_text(hours);
        out.append("h ");
        let mm = decimal_text(minutes);
        out.append(mm.as_str());
        out.append("m");
        out
    } else {
        let mut out = decimal_text(minutes);
        out.append("m");
        out
    }
}

/// Declares `chrono::TimeDelta` (`chrono::Duration`) so that durations can be
/// handed through; Verus sees nothing inside one.
#[verifier::external_type_specification]
#[verifier::external_body]
pub struct ExTimeDelta(chrono::TimeDelta);

/// The whole minutes of a duration, as `chrono::TimeDelta::num_minutes`
/// gives them.
pub uninterp spec fn minutes_in(duration: chrono::TimeDelta) -> i64;

/// `chrono::TimeDelta::num_minutes`: the whole minutes of a duration, named
/// `minutes_in`. The call depends on the duration alone (its seconds divided
/// by sixty, rounded toward zero) and cannot fail; how a duration's seconds
/// come about is hidden from Verus, so no more is claimed.
#[verifier::external_body]
fn whole_minutes(duration: &chrono::TimeDelta) -> (r: i64)
    ensures
        r == minutes_in(*duration),
{
    duration.num_minutes()
}

/// Shows a duration by its whole minutes (see `duration_text`).
pub fn format_duration(duration: chrono::TimeDelta) -> (r: String)
    ensures
        r@ == duration_text(minutes_in(duration) as int),
{
    let m = whole_minutes(&duration);
    format_minutes(m)
}

} // verus!
