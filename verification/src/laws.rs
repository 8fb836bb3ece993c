//! Properties that relate several operations of the library: what reading
//! the store gives back after a task operation's writes, and what deleting
//! a task covers.
use vstd::prelude::*;

use crate::models::{fresh_task, HistoryView, TaskView};
use crate::queries::{
    applied, counts_consistent, distinct_projects, entry_target, gather_task, group_fields, has_id,
    has_project, is_terminal, is_wip, lemma_index_of_char, lemma_note_activity_keeps,
    lemma_tally_wf, note_activity, position_of_id, position_of_project, project_of_key, tally,
    task_prefix, tasks_prefix, EntryView, SummaryView,
};
use crate::text::text_less;
use crate::tasks::{
    creation_note, creation_writes, criteria_note, criteria_writes, field_key, history_entry_key,
    dashed_time, status_writes, task_wildcard,
};
use crate::handlers::project::filter_keeps;
use crate::json::{history_json, json_object4};
use crate::queries::{counted, empty_summary};
use crate::text::uppercase;
use crate::valid_id;

verus! {

/// Written keys and values as the store gives them back, each value read as
/// the history entry `history` where it is read as one.
pub open spec fn as_entries(writes: Seq<(Seq<char>, Seq<char>)>, history: Option<HistoryView>) -> Seq<EntryView> {
    writes.map_values(|w: (Seq<char>, Seq<char>)| EntryView { key: w.0, value: w.1, history: history })
}

/// The history of a task after one history entry, read as `history`, was
/// added to it.
pub open spec fn with_history(h: Seq<HistoryView>, history: Option<HistoryView>) -> Seq<HistoryView> {
    match history {
        Some(e) => h.push(e),
        None => h,
    }
}

/// The task that creation writes: status `PENDING`, the entry time, entered
/// by `USER`, the criteria when they are not empty, and the history entry.
pub open spec fn created_view(
    task_id: Seq<char>,
    criteria: Seq<char>,
    now: Seq<char>,
    history: Option<HistoryView>,
) -> TaskView {
    TaskView {
        status: "PENDING"@,
        time_entered: Some(now),
        entered_by: Some("USER"@),
        acceptance_criteria: if criteria.len() > 0 {
            Some(criteria)
        } else {
            None
        },
        history: with_history(Seq::empty(), history),
        ..fresh_task(task_id)
    }
}

/// The field names that tasks are written with differ from one another and
/// from the history fields.
proof fn lemma_field_names_distinct(now: Seq<char>)
    ensures
        "status"@ != "time_entered"@,
        "status"@ != "entered_by"@,
        "status"@ != "acceptance_criteria"@,
        "status"@ != "time_accepted"@,
        "status"@ != "time_completed"@,
        "time_entered"@ != "time_accepted"@,
        "time_entered"@ != "time_completed"@,
        "time_entered"@ != "acceptance_criteria"@,
        "time_entered"@ != "entered_by"@,
        "time_accepted"@ != "time_completed"@,
        "time_accepted"@ != "acceptance_criteria"@,
        "time_accepted"@ != "entered_by"@,
        "time_completed"@ != "acceptance_criteria"@,
        "time_completed"@ != "entered_by"@,
        "acceptance_criteria"@ != "entered_by"@,
        !"history/"@.is_prefix_of("status"@),
        !"history/"@.is_prefix_of("time_entered"@),
        !"history/"@.is_prefix_of("time_accepted"@),
        !"history/"@.is_prefix_of("time_completed"@),
        !"history/"@.is_prefix_of("acceptance_criteria"@),
        !"history/"@.is_prefix_of("entered_by"@),
        "history/"@.is_prefix_of("history/"@ + dashed_time(now)),
        ("history/"@ + dashed_time(now)) != "status"@,
        ("history/"@ + dashed_time(now)) != "time_entered"@,
        ("history/"@ + dashed_time(now)) != "time_accepted"@,
        ("history/"@ + dashed_time(now)) != "time_completed"@,
        ("history/"@ + dashed_time(now)) != "acceptance_criteria"@,
        ("history/"@ + dashed_time(now)) != "entered_by"@,
{
    reveal_strlit("status");
    reveal_strlit("time_entered");
    reveal_strlit("time_accepted");
    reveal_strlit("time_completed");
    reveal_strlit("acceptance_criteria");
    reveal_strlit("entered_by");
    reveal_strlit("history/");
    let hk = "history/"@ + dashed_time(now);
    assert(hk[0] == 'h');
    assert("status"@[0] == 's');
    assert("time_entered"@[0] == 't' && "time_accepted"@[0] == 't' && "time_completed"@[0] == 't');
    assert("acceptance_criteria"@[0] == 'a');
    assert("entered_by"@[0] == 'e');
    assert("time_entered"@[5] == 'e' && "time_accepted"@[5] == 'a' && "time_completed"@[5] == 'c');
    assert("history/"@ =~= hk.subrange(0, 8));
}

/// The key of a field lies under the task's prefix, and reading it back
/// under that prefix gives the field.
proof fn lemma_field_key_reads(project_id: Seq<char>, task_id: Seq<char>, field: Seq<char>)
    ensures
        task_prefix(project_id, task_id).is_prefix_of(field_key(project_id, task_id, field)),
        field_key(project_id, task_id, field).skip(task_prefix(project_id, task_id).len() as int)
            == field,
{
    let p = task_prefix(project_id, task_id);
    assert(p =~= (p + field).subrange(0, p.len() as int));
    assert((p + field).skip(p.len() as int) =~= field);
}

/// The history key of a task is the field key of its history field.
proof fn lemma_history_key_is_field(project_id: Seq<char>, task_id: Seq<char>, now: Seq<char>)
    ensures
        history_entry_key(project_id, task_id, now) == field_key(
            project_id,
            task_id,
            "history/"@ + dashed_time(now),
        ),
{
    assert(history_entry_key(project_id, task_id, now) =~= field_key(
        project_id,
        task_id,
        "history/"@ + dashed_time(now),
    ));
}

/// Reading back what creating a task wrote, under the task's prefix, gives
/// the created task: status `PENDING`, the entry time, entered by `USER`,
/// the criteria when they are not empty, and the one history entry (as its
/// stored value is read).
pub proof fn law_created_task_reads_back(
    project_id: Seq<char>,
    task_id: Seq<char>,
    criteria: Seq<char>,
    now: Seq<char>,
    history: Option<HistoryView>,
)
    ensures
        gather_task(
            task_prefix(project_id, task_id),
            task_id,
            as_entries(creation_writes(project_id, task_id, criteria, now), history),
        ) == Some(created_view(task_id, criteria, now, history)),
{
    let p = task_prefix(project_id, task_id);
    let ws = creation_writes(project_id, task_id, criteria, now);
    let es = as_entries(ws, history);
    let hf = "history/"@ + dashed_time(now);
    lemma_field_names_distinct(now);
    lemma_field_key_reads(project_id, task_id, "status"@);
    lemma_field_key_reads(project_id, task_id, "time_entered"@);
    lemma_field_key_reads(project_id, task_id, "entered_by"@);
    lemma_field_key_reads(project_id, task_id, "acceptance_criteria"@);
    lemma_field_key_reads(project_id, task_id, hf);
    lemma_history_key_is_field(project_id, task_id, now);
    let t0 = fresh_task(task_id);
    let t1 = applied(t0, "status"@, "PENDING"@, history);
    let t2 = applied(t1, "time_entered"@, now, history);
    let t3 = applied(t2, "entered_by"@, "USER"@, history);
    let t4 = if criteria.len() > 0 {
        applied(t3, "acceptance_criteria"@, criteria, history)
    } else {
        t3
    };
    let t5 = applied(t4, hf, history_json(now, "NONE"@, "PENDING"@, creation_note()), history);
    let n = es.len();
    assert(es.take(1).drop_last() =~= Seq::<EntryView>::empty());
    assert(es[0] == EntryView { key: field_key(project_id, task_id, "status"@), value: "PENDING"@, history: history });
    assert(es.take(1).last() == es[0]);
    assert(gather_task(p, task_id, Seq::<EntryView>::empty()) is None);
    assert(gather_task(p, task_id, es.take(1)) == Some(t1));
    assert(es.take(2).drop_last() =~= es.take(1));
    assert(gather_task(p, task_id, es.take(2)) == Some(t2));
    assert(es.take(3).drop_last() =~= es.take(2));
    assert(gather_task(p, task_id, es.take(3)) == Some(t3));
    if criteria.len() > 0 {
        assert(es.take(4).drop_last() =~= es.take(3));
        assert(gather_task(p, task_id, es.take(4)) == Some(t4));
        assert(es.drop_last() =~= es.take(4));
    } else {
        assert(es.drop_last() =~= es.take(3));
    }
    assert(es.take(n as int) =~= es);
    assert(t5 == created_view(task_id, criteria, now, history)) by {
        assert(t5.history =~= with_history(Seq::empty(), history));
    }
}

/// A task id without `/` is read back whole from a key under the project's
/// prefix, with the field after it.
proof fn lemma_task_key_target(project_id: Seq<char>, task_id: Seq<char>, field: Seq<char>)
    requires
        forall|i: int| 0 <= i < task_id.len() ==> task_id[i] != '/',
    ensures
        entry_target(tasks_prefix(project_id), field_key(project_id, task_id, field)) == Some(
            (task_id, field),
        ),
{
    let pp = tasks_prefix(project_id);
    let key = field_key(project_id, task_id, field);
    reveal_strlit("/");
    assert(key =~= pp + (task_id + "/"@ + field));
    assert(pp =~= key.subrange(0, pp.len() as int));
    let rel = key.skip(pp.len() as int);
    assert(rel =~= task_id + "/"@ + field);
    assert forall|k: int| 0 <= k < task_id.len() implies rel[k] != '/' by {
        assert(rel[k] == task_id[k]);
    }
    assert(rel[task_id.len() as int] == '/');
    lemma_index_of_char(rel, '/', task_id.len() as int);
    assert(rel.take(task_id.len() as int) =~= task_id);
    assert(rel.skip(task_id.len() as int + 1) =~= field);
}

/// Reading back what creating a task wrote, under the project's prefix,
/// gives exactly the created task, when the task id is valid.
pub proof fn law_created_task_is_the_project_task(
    project_id: Seq<char>,
    task_id: Seq<char>,
    criteria: Seq<char>,
    now: Seq<char>,
    history: Option<HistoryView>,
)
    requires
        valid_id(task_id),
    ensures
        group_fields(
            tasks_prefix(project_id),
            as_entries(creation_writes(project_id, task_id, criteria, now), history),
        ) == seq![created_view(task_id, criteria, now, history)],
{
    let pp = tasks_prefix(project_id);
    let ws = creation_writes(project_id, task_id, criteria, now);
    let es = as_entries(ws, history);
    let hf = "history/"@ + dashed_time(now);
    assert forall|i: int| 0 <= i < task_id.len() implies task_id[i] != '/' by {
        assert(!crate::forbidden_in_id(task_id[i]));
    }
    lemma_field_names_distinct(now);
    lemma_task_key_target(project_id, task_id, "status"@);
    lemma_task_key_target(project_id, task_id, "time_entered"@);
    lemma_task_key_target(project_id, task_id, "entered_by"@);
    lemma_task_key_target(project_id, task_id, "acceptance_criteria"@);
    lemma_task_key_target(project_id, task_id, hf);
    lemma_history_key_is_field(project_id, task_id, now);
    let t0 = fresh_task(task_id);
    let t1 = applied(t0, "status"@, "PENDING"@, history);
    let t2 = applied(t1, "time_entered"@, now, history);
    let t3 = applied(t2, "entered_by"@, "USER"@, history);
    let t4 = if criteria.len() > 0 {
        applied(t3, "acceptance_criteria"@, criteria, history)
    } else {
        t3
    };
    let t5 = applied(t4, hf, history_json(now, "NONE"@, "PENDING"@, creation_note()), history);
    let n = es.len();
    assert(es.take(1).drop_last() =~= Seq::<EntryView>::empty());
    assert(!has_id(Seq::<TaskView>::empty(), task_id));
    assert(es[0] == EntryView { key: field_key(project_id, task_id, "status"@), value: "PENDING"@, history: history });
    assert(es.take(1).last() == es[0]);
    assert(group_fields(pp, Seq::<EntryView>::empty()) =~= Seq::<TaskView>::empty());
    assert(group_fields(pp, es.take(1)) =~= seq![t1]);
    assert(es.take(2).drop_last() =~= es.take(1));
    assert(seq![t1][0].id == task_id);
    assert(has_id(seq![t1], task_id));
    assert(position_of_id(seq![t1], task_id) == 0);
    assert(group_fields(pp, es.take(2)) =~= seq![t2]);
    assert(es.take(3).drop_last() =~= es.take(2));
    assert(seq![t2][0].id == task_id);
    assert(has_id(seq![t2], task_id));
    assert(position_of_id(seq![t2], task_id) == 0);
    assert(group_fields(pp, es.take(3)) =~= seq![t3]);
    assert(seq![t3][0].id == task_id);
    assert(has_id(seq![t3], task_id));
    assert(position_of_id(seq![t3], task_id) == 0);
    if criteria.len() > 0 {
        assert(es.take(4).drop_last() =~= es.take(3));
        assert(group_fields(pp, es.take(4)) =~= seq![t4]);
        assert(es.drop_last() =~= es.take(4));
    } else {
        assert(es.drop_last() =~= es.take(3));
    }
    assert(seq![t4][0].id == task_id);
    assert(has_id(seq![t4], task_id));
    assert(position_of_id(seq![t4], task_id) == 0);
    assert(es.take(n as int) =~= es);
    assert(t5 == created_view(task_id, criteria, now, history)) by {
        assert(t5.history =~= with_history(Seq::empty(), history));
    }
    assert(group_fields(pp, es) =~= seq![t5]);
}

/// Deleting a task removes every key that creating it wrote: the delete
/// expression is the task's prefix followed by `**`, and every created key
/// lies under that prefix.
pub proof fn law_delete_covers_created_keys(
    project_id: Seq<char>,
    task_id: Seq<char>,
    criteria: Seq<char>,
    now: Seq<char>,
)
    ensures
        task_wildcard(project_id, task_id) == task_prefix(project_id, task_id) + "**"@,
        forall|i: int|
            0 <= i < creation_writes(project_id, task_id, criteria, now).len() ==> task_prefix(
                project_id,
                task_id,
            ).is_prefix_of(#[trigger] creation_writes(project_id, task_id, criteria, now)[i].0),
{
    let ws = creation_writes(project_id, task_id, criteria, now);
    let hf = "history/"@ + dashed_time(now);
    lemma_field_key_reads(project_id, task_id, "status"@);
    lemma_field_key_reads(project_id, task_id, "time_entered"@);
    lemma_field_key_reads(project_id, task_id, "entered_by"@);
    lemma_field_key_reads(project_id, task_id, "acceptance_criteria"@);
    lemma_field_key_reads(project_id, task_id, hf);
    lemma_history_key_is_field(project_id, task_id, now);
}

/// The key of a history entry holds no `:` after the task's prefix: every
/// `:` of the time is replaced by `-`.
pub proof fn law_history_key_has_no_colon(now: Seq<char>)
    ensures
        dashed_time(now).len() == now.len(),
        forall|i: int| 0 <= i < dashed_time(now).len() ==> #[trigger] dashed_time(now)[i] != ':',
{
}

/// The task a status change leaves: the new status, the acceptance time
/// when it enters a work-in-progress status from one that is not, otherwise
/// the completion time when the new status is the terminal one, and the
/// history entry added.
pub open spec fn status_changed(
    t: TaskView,
    old_status: Seq<char>,
    new_status: Seq<char>,
    now: Seq<char>,
    history: Option<HistoryView>,
) -> TaskView {
    TaskView {
        status: new_status,
        time_accepted: if is_wip(new_status) && !is_wip(old_status) {
            Some(now)
        } else {
            t.time_accepted
        },
        time_completed: if !(is_wip(new_status) && !is_wip(old_status)) && is_terminal(new_status) {
            Some(now)
        } else {
            t.time_completed
        },
        history: with_history(t.history, history),
        ..t
    }
}

/// Reading more entries after a task's entries continues from the task
/// read so far.
proof fn lemma_gather_one_more(prefix: Seq<char>, id: Seq<char>, es: Seq<EntryView>, e: EntryView)
    ensures
        gather_task(prefix, id, es.push(e)) == (if prefix.is_prefix_of(e.key) {
            Some(
                applied(
                    match gather_task(prefix, id, es) {
                        Some(t) => t,
                        None => fresh_task(id),
                    },
                    e.key.skip(prefix.len() as int),
                    e.value,
                    e.history,
                ),
            )
        } else {
            gather_task(prefix, id, es)
        }),
{
    assert(es.push(e).drop_last() =~= es);
}

/// Reading back a task's entries followed by the writes of a status change
/// gives the task as `status_changed` describes it.
pub proof fn law_status_change_reads_back(
    project_id: Seq<char>,
    task_id: Seq<char>,
    entries: Seq<EntryView>,
    old_status: Seq<char>,
    new_status: Seq<char>,
    note: Seq<char>,
    now: Seq<char>,
    history: Option<HistoryView>,
)
    requires
        gather_task(task_prefix(project_id, task_id), task_id, entries) is Some,
    ensures
        gather_task(
            task_prefix(project_id, task_id),
            task_id,
            entries + as_entries(
                status_writes(project_id, task_id, old_status, new_status, note, now),
                history,
            ),
        ) == Some(
            status_changed(
                gather_task(task_prefix(project_id, task_id), task_id, entries)->0,
                old_status,
                new_status,
                now,
                history,
            ),
        ),
{
    let p = task_prefix(project_id, task_id);
    let t = gather_task(p, task_id, entries)->0;
    let ws = status_writes(project_id, task_id, old_status, new_status, note, now);
    let es = as_entries(ws, history);
    let hf = "history/"@ + dashed_time(now);
    lemma_field_names_distinct(now);
    lemma_field_key_reads(project_id, task_id, "status"@);
    lemma_field_key_reads(project_id, task_id, "time_accepted"@);
    lemma_field_key_reads(project_id, task_id, "time_completed"@);
    lemma_field_key_reads(project_id, task_id, hf);
    lemma_history_key_is_field(project_id, task_id, now);
    let e0 = es[0];
    lemma_gather_one_more(p, task_id, entries, e0);
    let t1 = applied(t, "status"@, new_status, history);
    assert(entries + es.take(1) =~= entries.push(e0));
    let after_time = if is_wip(new_status) && !is_wip(old_status) {
        let e1 = es[1];
        lemma_gather_one_more(p, task_id, entries + es.take(1), e1);
        assert(entries + es.take(2) =~= (entries + es.take(1)).push(e1));
        applied(t1, "time_accepted"@, now, history)
    } else if is_terminal(new_status) {
        let e1 = es[1];
        lemma_gather_one_more(p, task_id, entries + es.take(1), e1);
        assert(entries + es.take(2) =~= (entries + es.take(1)).push(e1));
        applied(t1, "time_completed"@, now, history)
    } else {
        t1
    };
    let k = es.len() - 1;
    assert(entries + es =~= (entries + es.take(k)).push(es[k]));
    lemma_gather_one_more(p, task_id, entries + es.take(k), es[k]);
    let last = applied(after_time, hf, history_json(now, old_status, new_status, note), history);
    assert(last == status_changed(t, old_status, new_status, now, history)) by {
        assert(last.history =~= with_history(t.history, history));
    }
}

/// Reading back a task's entries followed by the writes of a criteria edit
/// gives the task with the new criteria and the history entry added.
pub proof fn law_criteria_edit_reads_back(
    project_id: Seq<char>,
    task_id: Seq<char>,
    entries: Seq<EntryView>,
    status: Seq<char>,
    criteria: Seq<char>,
    now: Seq<char>,
    history: Option<HistoryView>,
)
    requires
        gather_task(task_prefix(project_id, task_id), task_id, entries) is Some,
    ensures
        gather_task(
            task_prefix(project_id, task_id),
            task_id,
            entries + as_entries(criteria_writes(project_id, task_id, status, criteria, now), history),
        ) == Some(
            TaskView {
                acceptance_criteria: Some(criteria),
                history: with_history(
                    gather_task(task_prefix(project_id, task_id), task_id, entries)->0.history,
                    history,
                ),
                ..gather_task(task_prefix(project_id, task_id), task_id, entries)->0
            },
        ),
{
    let p = task_prefix(project_id, task_id);
    let t = gather_task(p, task_id, entries)->0;
    let ws = criteria_writes(project_id, task_id, status, criteria, now);
    let es = as_entries(ws, history);
    let hf = "history/"@ + dashed_time(now);
    lemma_field_names_distinct(now);
    lemma_field_key_reads(project_id, task_id, "acceptance_criteria"@);
    lemma_field_key_reads(project_id, task_id, hf);
    lemma_history_key_is_field(project_id, task_id, now);
    lemma_gather_one_more(p, task_id, entries, es[0]);
    assert(entries + es.take(1) =~= entries.push(es[0]));
    assert(entries + es =~= (entries + es.take(1)).push(es[1]));
    lemma_gather_one_more(p, task_id, entries + es.take(1), es[1]);
    let t1 = applied(t, "acceptance_criteria"@, criteria, history);
    let t2 = applied(t1, hf, history_json(now, status, status, criteria_note()), history);
    assert(t2.history =~= with_history(t.history, history));
}


/// Whether an entry is a history entry of the project `id`: its key names
/// the project and its value reads as a history entry.
pub open spec fn counts_for(e: EntryView, id: Seq<char>) -> bool {
    project_of_key(e.key) == Some(id) && e.history is Some
}

/// The last activity that folding in history entries gives a summary that
/// had none: nothing when no entry is a history entry of the project,
/// otherwise the latest (lexicographically greatest) of their timestamps.
proof fn lemma_last_activity_is_latest(ss: Seq<SummaryView>, es: Seq<EntryView>, i: int)
    requires
        distinct_projects(ss),
        0 <= i < ss.len(),
        forall|j: int| 0 <= j < ss.len() ==> (#[trigger] ss[j]).last_activity is None,
    ensures
        (note_activity(ss, es)[i].last_activity is None) <==> (forall|k: int|
            0 <= k < es.len() ==> !counts_for(#[trigger] es[k], ss[i].id)),
        note_activity(ss, es)[i].last_activity matches Some(x) ==> exists|k: int|
            0 <= k < es.len() && counts_for(#[trigger] es[k], ss[i].id) && es[k].history->0.timestamp
                == x,
        note_activity(ss, es)[i].last_activity matches Some(x) ==> forall|k: int|
            0 <= k < es.len() && counts_for(#[trigger] es[k], ss[i].id) ==> !text_less(
                x,
                es[k].history->0.timestamp,
            ),
    decreases es.len(),
{
    lemma_note_activity_keeps(ss, es);
    if es.len() == 0 {
        return;
    }
    let init = es.drop_last();
    lemma_last_activity_is_latest(ss, init, i);
    lemma_note_activity_keeps(ss, init);
    let before = note_activity(ss, init);
    let e = es.last();
    let id = ss[i].id;
    let n = es.len() - 1;
    assert forall|k: int| 0 <= k < n implies #[trigger] es[k] == init[k] by {}
    assert(es[n] == e);
    let old = before[i].last_activity;
    let new = note_activity(ss, es)[i].last_activity;
    assert(distinct_projects(before)) by {
        assert forall|a: int, b: int| 0 <= a < before.len() && 0 <= b < before.len() && a != b implies before[a].id != before[b].id by {
            assert(before[a].id == ss[a].id);
            assert(before[b].id == ss[b].id);
        }
    }
    assert(before[i].id == id);
    match (project_of_key(e.key), e.history) {
        (Some(p), Some(h)) => {
            if has_project(before, p) {
                let j = position_of_project(before, p);
                if j == i {
                    assert(p == id);
                    let ts = h.timestamp;
                    assert(counts_for(es[n], id));
                    match old {
                        None => {
                            assert(new == Some(ts));
                            assert forall|k: int| 0 <= k < es.len() && counts_for(#[trigger] es[k], id) implies !text_less(
                                ts,
                                es[k].history->0.timestamp,
                            ) by {
                                if k < n {
                                    assert(counts_for(init[k], id));
                                } else {
                                    crate::text::lemma_text_less_total(ts, ts);
                                }
                            }
                        },
                        Some(x) => {
                            if text_less(x, ts) {
                                assert(new == Some(ts));
                                assert forall|k: int| 0 <= k < es.len() && counts_for(#[trigger] es[k], id) implies !text_less(
                                    ts,
                                    es[k].history->0.timestamp,
                                ) by {
                                    let tk = es[k].history->0.timestamp;
                                    if k < n {
                                        assert(counts_for(init[k], id));
                                        assert(!text_less(x, tk));
                                        if text_less(ts, tk) {
                                            crate::text::lemma_text_less_transitive(x, ts, tk);
                                        }
                                    } else {
                                        crate::text::lemma_text_less_total(ts, ts);
                                    }
                                }
                                assert(exists|k: int| 0 <= k < es.len() && counts_for(#[trigger] es[k], id) && es[k].history->0.timestamp == ts) by {
                                    assert(counts_for(es[n], id));
                                }
                            } else {
                                assert(new == Some(x));
                                let w = choose|k: int| 0 <= k < init.len() && counts_for(#[trigger] init[k], id) && init[k].history->0.timestamp == x;
                                assert(es[w] == init[w]);
                                assert(forall|k: int| 0 <= k < es.len() && counts_for(#[trigger] es[k], id) ==> !text_less(x, es[k].history->0.timestamp)) by {
                                    assert forall|k: int| 0 <= k < es.len() && counts_for(#[trigger] es[k], id) implies !text_less(x, es[k].history->0.timestamp) by {
                                        if k < n {
                                            assert(counts_for(init[k], id));
                                        }
                                    }
                                }
                            }
                        },
                    }
                } else {
                    assert(before[j].id == p);
                    assert(p != id);
                    assert(new == old);
                    assert(!counts_for(e, id));
                    assert forall|k: int| 0 <= k < es.len() && counts_for(#[trigger] es[k], id) implies k < n by {}
                    if old is None {
                        assert forall|k: int| 0 <= k < es.len() implies !counts_for(#[trigger] es[k], id) by {
                            if k < n {
                                assert(!counts_for(init[k], id));
                            }
                        }
                    } else {
                        let x = old->0;
                        let w = choose|k: int| 0 <= k < init.len() && counts_for(#[trigger] init[k], id) && init[k].history->0.timestamp == x;
                        assert(es[w] == init[w]);
                        assert forall|k: int| 0 <= k < es.len() && counts_for(#[trigger] es[k], id) implies !text_less(x, es[k].history->0.timestamp) by {
                            assert(counts_for(init[k], id));
                        }
                    }
                }
            } else {
                assert(p != id) by {
                    if p == id {
                        assert(before[i].id == p);
                    }
                }
                assert(new == old);
                assert(!counts_for(e, id));
                if old is None {
                    assert forall|k: int| 0 <= k < es.len() implies !counts_for(#[trigger] es[k], id) by {
                        if k < n {
                            assert(!counts_for(init[k], id));
                        }
                    }
                } else {
                    let x = old->0;
                    let w = choose|k: int| 0 <= k < init.len() && counts_for(#[trigger] init[k], id) && init[k].history->0.timestamp == x;
                    assert(es[w] == init[w]);
                    assert forall|k: int| 0 <= k < es.len() && counts_for(#[trigger] es[k], id) implies !text_less(x, es[k].history->0.timestamp) by {
                        if k < n {
                            assert(counts_for(init[k], id));
                        }
                    }
                }
            }
        },
        _ => {
            assert(new == old);
            assert(!counts_for(e, id));
            if old is None {
                assert forall|k: int| 0 <= k < es.len() implies !counts_for(#[trigger] es[k], id) by {
                    if k < n {
                        assert(!counts_for(init[k], id));
                    }
                }
            } else {
                let x = old->0;
                let w = choose|k: int| 0 <= k < init.len() && counts_for(#[trigger] init[k], id) && init[k].history->0.timestamp == x;
                assert(es[w] == init[w]);
                assert forall|k: int| 0 <= k < es.len() && counts_for(#[trigger] es[k], id) implies !text_less(x, es[k].history->0.timestamp) by {
                    if k < n {
                        assert(counts_for(init[k], id));
                    }
                }
            }
        },
    }
}

/// A project's last activity in the summaries is the latest timestamp of
/// its history entries, compared as text (which orders RFC 3339 times of
/// one offset by time), and nothing when it has none.
pub proof fn law_last_activity_is_latest_history(status_entries: Seq<EntryView>, history_entries: Seq<EntryView>, i: int)
    requires
        0 <= i < tally(status_entries).len(),
    ensures
        ({
            let s = note_activity(tally(status_entries), history_entries)[i];
            let id = tally(status_entries)[i].id;
            &&& s.id == id
            &&& (s.last_activity is None <==> forall|k: int|
                0 <= k < history_entries.len() ==> !counts_for(#[trigger] history_entries[k], id))
            &&& (s.last_activity matches Some(x) ==> exists|k: int|
                0 <= k < history_entries.len() && counts_for(#[trigger] history_entries[k], id)
                    && history_entries[k].history->0.timestamp == x)
            &&& (s.last_activity matches Some(x) ==> forall|k: int|
                0 <= k < history_entries.len() && counts_for(#[trigger] history_entries[k], id) ==> !text_less(
                    x,
                    history_entries[k].history->0.timestamp,
                ))
        }),
{
    let ss = tally(status_entries);
    lemma_tally_wf(status_entries);
    lemma_note_activity_keeps(ss, history_entries);
    assert forall|j: int| 0 <= j < ss.len() implies (#[trigger] ss[j]).last_activity is None by {}
    lemma_last_activity_is_latest(ss, history_entries, i);
}

/// Every summary's counts are consistent: no more tasks in progress than
/// incomplete ones, no more incomplete ones than tasks.
pub proof fn law_summary_counts_consistent(status_entries: Seq<EntryView>, history_entries: Seq<EntryView>, i: int)
    requires
        0 <= i < tally(status_entries).len(),
    ensures
        counts_consistent(note_activity(tally(status_entries), history_entries)[i]),
{
    let ss = tally(status_entries);
    lemma_tally_wf(status_entries);
    lemma_note_activity_keeps(ss, history_entries);
    assert(counts_consistent(ss[i]));
    assert(note_activity(ss, history_entries)[i].id == ss[i].id);
}


/// Every key of a task in a project with a valid id names that project:
/// the dashboard counts the task's status under it.
pub proof fn law_task_keys_name_their_project(project_id: Seq<char>, task_id: Seq<char>, field: Seq<char>)
    requires
        valid_id(project_id),
    ensures
        project_of_key(field_key(project_id, task_id, field)) == Some(project_id),
{
    reveal_strlit("projects/");
    reveal_strlit("/tasks/");
    reveal_strlit("/");
    let key = field_key(project_id, task_id, field);
    let rest = project_id + ("/tasks/"@ + task_id + "/"@ + field);
    assert(key =~= "projects"@ + seq!['/'] + rest) by {
        reveal_strlit("projects");
    }
    reveal_strlit("projects");
    assert forall|k: int| 0 <= k < 8 implies key[k] != '/' by {
        assert(key[k] == "projects"@[k]);
    }
    assert(key[8] == '/');
    lemma_index_of_char(key, '/', 8);
    assert(key.skip(9) =~= rest);
    assert forall|k: int| 0 <= k < project_id.len() implies rest[k] != '/' by {
        assert(rest[k] == project_id[k]);
        assert(!crate::forbidden_in_id(project_id[k]));
    }
    assert(rest[project_id.len() as int] == '/');
    lemma_index_of_char(rest, '/', project_id.len() as int);
    assert(rest.take(project_id.len() as int) =~= project_id);
}

// ---------------------------------------------------------------------------
// Ids
// ---------------------------------------------------------------------------

/// An id is valid exactly when it is not empty and holds none of `*`, `?`,
/// `#`, `$` and `/`; any other character, upper-case letters included, may
/// stand in an id, and two valid ids joined make a valid id.
pub proof fn law_valid_ids(s: Seq<char>, a: Seq<char>, b: Seq<char>, c: char)
    ensures
        valid_id(s) <==> (s.len() > 0 && forall|i: int| 0 <= i < s.len() ==> {
            let x = #[trigger] s[i];
            x != '*' && x != '?' && x != '#' && x != '$' && x != '/'
        }),
        valid_id(seq![c]) <==> (c != '*' && c != '?' && c != '#' && c != '$' && c != '/'),
        valid_id(a) && valid_id(b) ==> valid_id(a + b),
{
    if valid_id(a) && valid_id(b) {
        assert forall|i: int| 0 <= i < (a + b).len() implies !crate::forbidden_in_id(#[trigger] (a + b)[i]) by {
            if i < a.len() {
                assert((a + b)[i] == a[i]);
            } else {
                assert((a + b)[i] == b[i - a.len()]);
            }
        }
    }
    if c != '*' && c != '?' && c != '#' && c != '$' && c != '/' {
        assert forall|i: int| 0 <= i < seq![c].len() implies !crate::forbidden_in_id(#[trigger] seq![c][i]) by {
            assert(seq![c][i] == c);
        }
    } else {
        assert(seq![c][0] == c);
    }
}

// ---------------------------------------------------------------------------
// The project page's filters and the dashboard's counts
// ---------------------------------------------------------------------------

/// A project page's filters: `incomplete` lists a task exactly when its
/// status in upper case is not `COMPLETED` (so the statuses of work in
/// progress are listed too), `wip` exactly when it is `IN_PROGRESS`, `WIP`
/// or `RUNNING`, and any other filter lists every task.
pub proof fn law_filters_by_upper_case_status(t: TaskView, f: Seq<char>)
    ensures
        filter_keeps(t, "incomplete"@) <==> uppercase(t.status) != "COMPLETED"@,
        filter_keeps(t, "wip"@) <==> (uppercase(t.status) == "IN_PROGRESS"@ || uppercase(t.status) == "WIP"@
            || uppercase(t.status) == "RUNNING"@),
        (uppercase(t.status) == "IN_PROGRESS"@ || uppercase(t.status) == "WIP"@ || uppercase(t.status)
            == "RUNNING"@) ==> filter_keeps(t, "incomplete"@),
        f != "incomplete"@ && f != "wip"@ ==> filter_keeps(t, f),
{
    reveal_strlit("incomplete");
    reveal_strlit("wip");
    reveal_strlit("COMPLETED");
    reveal_strlit("IN_PROGRESS");
    reveal_strlit("WIP");
    reveal_strlit("RUNNING");
    assert("wip"@ != "incomplete"@) by {
        assert("wip"@.len() != "incomplete"@.len());
    }
    assert("IN_PROGRESS"@ != "COMPLETED"@) by {
        assert("IN_PROGRESS"@.len() != "COMPLETED"@.len());
    }
    assert("WIP"@ != "COMPLETED"@) by {
        assert("WIP"@.len() != "COMPLETED"@.len());
    }
    assert("RUNNING"@ != "COMPLETED"@) by {
        assert("RUNNING"@.len() != "COMPLETED"@.len());
    }
}

/// The counts of a project with tasks of the given statuses, as the
/// dashboard counts them one status at a time.
pub open spec fn status_counts(id: Seq<char>, statuses: Seq<Seq<char>>) -> SummaryView
    decreases statuses.len(),
{
    if statuses.len() == 0 {
        empty_summary(id)
    } else {
        counted(status_counts(id, statuses.drop_last()), statuses.last())
    }
}

/// The statuses of a list of tasks.
pub open spec fn statuses_of(ts: Seq<TaskView>) -> Seq<Seq<char>> {
    ts.map_values(|t: TaskView| t.status)
}

/// A project page lists as many tasks under `incomplete` as the dashboard
/// counts incomplete for the same tasks, as many under `wip` as it counts
/// in progress, and every task under `all`.
pub proof fn law_page_lists_match_dashboard_counts(id: Seq<char>, ts: Seq<TaskView>)
    ensures
        ts.filter(|t: TaskView| filter_keeps(t, "incomplete"@)).len() == status_counts(id, statuses_of(ts)).incomplete,
        ts.filter(|t: TaskView| filter_keeps(t, "wip"@)).len() == status_counts(id, statuses_of(ts)).wip,
        ts.filter(|t: TaskView| filter_keeps(t, "all"@)).len() == status_counts(id, statuses_of(ts)).total,
    decreases ts.len(),
{
    reveal_with_fuel(Seq::filter, 1);
    if ts.len() > 0 {
        law_page_lists_match_dashboard_counts(id, ts.drop_last());
        assert(statuses_of(ts).drop_last() =~= statuses_of(ts.drop_last()));
        assert(statuses_of(ts).last() == ts.last().status);
        reveal_strlit("all");
        reveal_strlit("incomplete");
        reveal_strlit("wip");
        assert("all"@ != "incomplete"@) by {
            assert("all"@.len() != "incomplete"@.len());
        }
        assert("all"@ != "wip"@) by {
            assert("all"@[0] != "wip"@[0]);
        }
    } else {
        assert(statuses_of(ts) =~= Seq::<Seq<char>>::empty());
    }
}

/// The dashboard's summary of status entries that all name one project is
/// that project's counts of the entries' statuses, in one summary.
pub proof fn law_dashboard_counts_one_project(p: Seq<char>, entries: Seq<EntryView>)
    requires
        entries.len() > 0,
        forall|i: int| 0 <= i < entries.len() ==> project_of_key(#[trigger] entries[i].key) == Some(p),
    ensures
        tally(entries) == seq![status_counts(p, entries.map_values(|e: EntryView| e.value))],
    decreases entries.len(),
{
    let vs = entries.map_values(|e: EntryView| e.value);
    let prev = entries.drop_last();
    assert(vs.drop_last() =~= prev.map_values(|e: EntryView| e.value));
    assert(project_of_key(entries[entries.len() - 1].key) == Some(p));
    if prev.len() == 0 {
        assert(tally(prev) =~= Seq::<SummaryView>::empty());
        assert(vs.drop_last() =~= Seq::<Seq<char>>::empty());
        assert(tally(entries) =~= seq![counted(empty_summary(p), entries.last().value)]);
    } else {
        assert forall|i: int| 0 <= i < prev.len() implies project_of_key(#[trigger] prev[i].key) == Some(p) by {
            assert(prev[i] == entries[i]);
        }
        law_dashboard_counts_one_project(p, prev);
        let ss = tally(prev);
        assert(ss[0].id == p) by {
            lemma_status_counts_id(p, vs.drop_last());
        }
        assert(has_project(ss, p));
        assert(position_of_project(ss, p) == 0);
        assert(tally(entries) =~= ss.update(0, counted(ss[0], entries.last().value)));
    }
}

/// The counts of a project carry its id.
proof fn lemma_status_counts_id(id: Seq<char>, statuses: Seq<Seq<char>>)
    ensures
        status_counts(id, statuses).id == id,
    decreases statuses.len(),
{
    if statuses.len() > 0 {
        lemma_status_counts_id(id, statuses.drop_last());
    }
}

// ---------------------------------------------------------------------------
// What a history entry records
// ---------------------------------------------------------------------------

/// A status change writes the new status; then the acceptance time when the
/// task enters `IN_PROGRESS`, `WIP` or `RUNNING` from another status, or else
/// the completion time when it becomes `COMPLETED`; and last the history
/// entry. That entry, stored under the change's dashed time, is the JSON object whose `from_status` is the old status,
/// whose `note` is the note, whose `timestamp` is the time of the change
/// itself (colons and all) and whose `to_status` is the new status.
pub proof fn law_status_change_history_records_the_change(
    project_id: Seq<char>,
    task_id: Seq<char>,
    old_status: Seq<char>,
    new_status: Seq<char>,
    note: Seq<char>,
    now: Seq<char>,
)
    ensures
        status_writes(project_id, task_id, old_status, new_status, note, now)[0] == (
            task_prefix(project_id, task_id) + "status"@,
            new_status,
        ),
        ({
            let ws = status_writes(project_id, task_id, old_status, new_status, note, now);
            let wip_new = new_status == "IN_PROGRESS"@ || new_status == "WIP"@ || new_status == "RUNNING"@;
            let wip_old = old_status == "IN_PROGRESS"@ || old_status == "WIP"@ || old_status == "RUNNING"@;
            if wip_new && !wip_old {
                ws.len() == 3 && ws[1] == (task_prefix(project_id, task_id) + "time_accepted"@, now)
            } else if new_status == "COMPLETED"@ {
                ws.len() == 3 && ws[1] == (task_prefix(project_id, task_id) + "time_completed"@, now)
            } else {
                ws.len() == 2
            }
        }),
        status_writes(project_id, task_id, old_status, new_status, note, now).last() == (
            task_prefix(project_id, task_id) + "history/"@ + dashed_time(now),
            json_object4(
                "from_status"@,
                old_status,
                "note"@,
                note,
                "timestamp"@,
                now,
                "to_status"@,
                new_status,
            ),
        ),
{
}

/// A criteria edit writes the new criteria and then the history entry. That
/// entry, stored under the edit's dashed time, is the JSON object whose `from_status` and `to_status` are the
/// current status, whose `note` is `criteria updated` and whose `timestamp`
/// is the time of the edit itself.
pub proof fn law_criteria_edit_history_records_the_edit(
    project_id: Seq<char>,
    task_id: Seq<char>,
    status: Seq<char>,
    criteria: Seq<char>,
    now: Seq<char>,
)
    ensures
        criteria_writes(project_id, task_id, status, criteria, now).len() == 2,
        criteria_writes(project_id, task_id, status, criteria, now)[0] == (
            task_prefix(project_id, task_id) + "acceptance_criteria"@,
            criteria,
        ),
        criteria_writes(project_id, task_id, status, criteria, now).last() == (
            task_prefix(project_id, task_id) + "history/"@ + dashed_time(now),
            json_object4(
                "from_status"@,
                status,
                "note"@,
                "criteria updated"@,
                "timestamp"@,
                now,
                "to_status"@,
                status,
            ),
        ),
{
}

/// The history entry creating a task writes, stored under the creation's
/// dashed time, is the JSON object from `NONE` to `PENDING` with the note
/// `Task created via web UI` and the time of the creation itself.
pub proof fn law_creation_history_records_the_creation(
    project_id: Seq<char>,
    task_id: Seq<char>,
    criteria: Seq<char>,
    now: Seq<char>,
)
    ensures
        creation_writes(project_id, task_id, criteria, now).last() == (
            task_prefix(project_id, task_id) + "history/"@ + dashed_time(now),
            json_object4(
                "from_status"@,
                "NONE"@,
                "note"@,
                "Task created via web UI"@,
                "timestamp"@,
                now,
                "to_status"@,
                "PENDING"@,
            ),
        ),
{
}

} // verus!
