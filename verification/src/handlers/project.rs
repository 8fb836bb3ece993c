//! A project's page: its filtered task list and the new-task form.
use vstd::prelude::*;

use crate::models::{Task, TaskView};
use crate::queries::{is_terminal, is_terminal_status, is_wip, is_wip_status, swap_items, task_views};
use crate::text::{chars_of, compare_texts, same_text, text_less, to_upper, uppercase};
use crate::{is_valid_id, valid_id};

verus! {

/// What a project's page shows.
pub struct ProjectTemplate {
    pub project_id: String,
    pub tasks: Vec<Task>,
}

/// The query of a project's page: the filter asked for.
pub struct FilterQuery {
    pub filter: String,
}

/// The values of the new-task form.
pub struct CreateTaskForm {
    pub task_id: String,
    pub criteria: String,
}

/// The filter of a project's page when none is asked for.
pub open spec fn all_filter() -> Seq<char> {
    "all"@
}

/// The filter of a project's page when none is asked for: `all`.
pub fn default_filter() -> (r: String)
    ensures
        r@ == all_filter(),
{
    String::from_str("all")
}

/// Whether a task is listed under a filter: `incomplete` lists the tasks
/// whose upper-case status is not the terminal one, `wip` those with a
/// work-in-progress status, any other filter lists every task.
pub open spec fn filter_keeps(t: TaskView, filter: Seq<char>) -> bool {
    let u = uppercase(t.status);
    if filter == "incomplete"@ {
        !is_terminal(u)
    } else if filter == "wip"@ {
        is_wip(u)
    } else {
        true
    }
}

/// Whether a task is listed under a filter (see `filter_keeps`).
pub fn matches_filter(task: &Task, filter: &str) -> (r: bool)
    ensures
        r == filter_keeps(task@, filter@),
{
    let status = to_upper(task.status.as_str());
    if same_text(filter, "incomplete") {
        !is_terminal_status(status.as_str())
    } else if same_text(filter, "wip") {
        is_wip_status(status.as_str())
    } else {
        true
    }
}

/// Whether the tasks are in order of id (equal ids next to each other).
pub open spec fn ordered_by_id(ts: Seq<TaskView>) -> bool {
    forall|i: int, j: int| 0 <= i < j < ts.len() ==> !text_less(#[trigger] ts[j].id, #[trigger] ts[i].id)
}

/// The tasks of `ts` with the id `id`, in their order in `ts`.
pub open spec fn id_class(ts: Seq<TaskView>, id: Seq<char>) -> Seq<TaskView> {
    ts.filter(|t: TaskView| t.id == id)
}

/// Whether `a` and `b` hold, for every id, the same tasks with that id in
/// the same order.
pub open spec fn same_id_classes(a: Seq<TaskView>, b: Seq<TaskView>) -> bool {
    forall|id: Seq<char>| #[trigger] id_class(a, id) == id_class(b, id)
}

/// `s` with the elements at `k` and `k + 1` exchanged.
pub open spec fn swapped_tasks(s: Seq<TaskView>, k: int) -> Seq<TaskView> {
    s.update(k, s[k + 1]).update(k + 1, s[k])
}

/// Exchanging two neighbours with different ids keeps the tasks and the
/// order of the tasks of each id.
pub proof fn lemma_swap_keeps_id_classes(s: Seq<TaskView>, k: int)
    requires
        0 <= k,
        k + 1 < s.len(),
        s[k].id != s[k + 1].id,
    ensures
        same_id_classes(swapped_tasks(s, k), s),
        swapped_tasks(s, k).to_multiset() == s.to_multiset(),
{
    let t = swapped_tasks(s, k);
    let pre = s.take(k);
    let post = s.skip(k + 2);
    let ab = seq![s[k], s[k + 1]];
    let ba = seq![s[k + 1], s[k]];
    assert(s =~= pre + ab + post);
    assert(t =~= pre + ba + post);
    assert forall|id: Seq<char>| #[trigger] id_class(t, id) == id_class(s, id) by {
        let p = |x: TaskView| x.id == id;
        broadcast use Seq::filter_distributes_over_add;
        assert(ab.filter(p) == ba.filter(p)) by {
            reveal_with_fuel(Seq::filter, 3);
            assert(ab.drop_last() =~= seq![s[k]]);
            assert(ba.drop_last() =~= seq![s[k + 1]]);
            assert(seq![s[k]].drop_last() =~= Seq::<TaskView>::empty());
            assert(seq![s[k + 1]].drop_last() =~= Seq::<TaskView>::empty());
            if p(s[k]) && !p(s[k + 1]) {
                assert(ab.filter(p) =~= seq![s[k]]);
                assert(ba.filter(p) =~= seq![s[k]]);
            }
            if !p(s[k]) && p(s[k + 1]) {
                assert(ab.filter(p) =~= seq![s[k + 1]]);
                assert(ba.filter(p) =~= seq![s[k + 1]]);
            }
        }
        assert((pre + ab + post).filter(p) == (pre + ab).filter(p) + post.filter(p));
        assert((pre + ba + post).filter(p) == (pre + ba).filter(p) + post.filter(p));
        assert((pre + ab).filter(p) == pre.filter(p) + ab.filter(p));
        assert((pre + ba).filter(p) == pre.filter(p) + ba.filter(p));
    }
    vstd::seq_lib::lemma_multiset_commutative(pre + ab, post);
    vstd::seq_lib::lemma_multiset_commutative(pre + ba, post);
    vstd::seq_lib::lemma_multiset_commutative(pre, ab);
    vstd::seq_lib::lemma_multiset_commutative(pre, ba);
    assert(ab.to_multiset() == ba.to_multiset()) by {
        broadcast use vstd::seq_lib::group_to_multiset_ensures;
        assert(ab =~= seq![s[k]].push(s[k + 1]));
        assert(ba =~= seq![s[k + 1]].push(s[k]));
        assert(seq![s[k]] =~= Seq::<TaskView>::empty().push(s[k]));
        assert(seq![s[k + 1]] =~= Seq::<TaskView>::empty().push(s[k + 1]));
        assert(ab.to_multiset() =~= ba.to_multiset());
    }
}

/// Whether the id of `a` comes before the id of `b`.
fn id_less(a: &Task, b: &Task) -> (r: bool)
    ensures
        r == text_less(a.id@, b.id@),
{
    let x = chars_of(a.id.as_str());
    let y = chars_of(b.id.as_str());
    compare_texts(&x, &y) == -1
}

/// Orders tasks by id. The order is stable: tasks with the same id keep
/// their order. The result holds the same tasks.
pub fn sort_tasks_by_id(tasks: &mut [Task])
    ensures
        ordered_by_id(task_views(final(tasks)@)),
        task_views(final(tasks)@).to_multiset() == task_views(old(tasks)@).to_multiset(),
        same_id_classes(task_views(final(tasks)@), task_views(old(tasks)@)),
{
    let ghost orig = task_views(tasks@);
    let n = tasks.len();
    if n == 0 {
        return;
    }
    let mut i: usize = 1;
    while i < n
        invariant
            1 <= i <= n,
            n == tasks@.len(),
            orig.len() == n,
            forall|a: int, b: int| 0 <= a < b < i ==> !text_less(
                #[trigger] task_views(tasks@)[b].id,
                #[trigger] task_views(tasks@)[a].id,
            ),
            task_views(tasks@).to_multiset() == orig.to_multiset(),
            same_id_classes(task_views(tasks@), orig),
        decreases n - i,
    {
        let mut j: usize = i;
        while j > 0 && id_less(&tasks[j], &tasks[j - 1])
            invariant
                0 <= j <= i < n,
                n == tasks@.len(),
                forall|a: int, b: int| 0 <= a < b < j ==> !text_less(
                    #[trigger] task_views(tasks@)[b].id,
                    #[trigger] task_views(tasks@)[a].id,
                ),
                forall|a: int, b: int| j < a < b <= i ==> !text_less(
                    #[trigger] task_views(tasks@)[b].id,
                    #[trigger] task_views(tasks@)[a].id,
                ),
                forall|a: int, b: int| 0 <= a < j && j < b <= i ==> !text_less(
                    #[trigger] task_views(tasks@)[b].id,
                    #[trigger] task_views(tasks@)[a].id,
                ),
                forall|b: int| j < b <= i ==> text_less(
                    task_views(tasks@)[j as int].id,
                    #[trigger] task_views(tasks@)[b].id,
                ),
                task_views(tasks@).to_multiset() == orig.to_multiset(),
                same_id_classes(task_views(tasks@), orig),
            decreases j,
        {
            let ghost vs = task_views(tasks@);
            proof {
                crate::text::lemma_text_less_total(vs[j as int].id, vs[j - 1].id);
                lemma_swap_keeps_id_classes(vs, j - 1);
            }
            swap_items(tasks, j - 1, j);
            proof {
                let ws = task_views(tasks@);
                assert(ws =~= swapped_tasks(vs, j - 1));
                assert forall|id: Seq<char>| #[trigger] id_class(ws, id) == id_class(orig, id) by {
                    assert(id_class(swapped_tasks(vs, j - 1), id) == id_class(vs, id));
                }
                assert forall|a: int, b: int| j - 1 < a < b <= i implies !text_less(
                    #[trigger] ws[b].id,
                    #[trigger] ws[a].id,
                ) by {
                    if a == j {
                        assert(ws[a] == vs[j - 1]);
                        assert(ws[b] == vs[b]);
                    }
                }
                assert forall|a: int, b: int| 0 <= a < j - 1 && j - 1 < b <= i implies !text_less(
                    #[trigger] ws[b].id,
                    #[trigger] ws[a].id,
                ) by {
                    if b == j {
                        assert(ws[b] == vs[j - 1]);
                    }
                }
                assert forall|b: int| j - 1 < b <= i implies text_less(
                    ws[j - 1].id,
                    #[trigger] ws[b].id,
                ) by {
                    if b == j {
                        assert(ws[b] == vs[j - 1]);
                    }
                }
            }
            j = j - 1;
        }
        proof {
            let vs = task_views(tasks@);
            assert forall|a: int, b: int| 0 <= a < b < i + 1 implies !text_less(
                #[trigger] vs[b].id,
                #[trigger] vs[a].id,
            ) by {
                if b == j && a < j {
                    crate::text::lemma_text_less_total(vs[a].id, vs[j - 1].id);
                    crate::text::lemma_text_less_total(vs[j - 1].id, vs[b].id);
                    crate::text::lemma_text_less_total(vs[a].id, vs[b].id);
                    if a < j - 1 {
                        assert(!text_less(vs[j - 1].id, vs[a].id));
                    }
                    if text_less(vs[b].id, vs[a].id) && text_less(vs[a].id, vs[j - 1].id) {
                        crate::text::lemma_text_less_transitive(vs[b].id, vs[a].id, vs[j - 1].id);
                    }
                } else if a == j {
                    crate::text::lemma_text_less_total(vs[a].id, vs[b].id);
                }
            }
        }
        i = i + 1;
    }
}

/// A project's page: the tasks listed under the filter (see
/// `filter_keeps`), in order of id.
pub fn build_project_view(project_id: String, tasks: Vec<Task>, query: &FilterQuery) -> (r: ProjectTemplate)
    ensures
        r.project_id == project_id,
        ordered_by_id(task_views(r.tasks@)),
        task_views(r.tasks@).to_multiset() == task_views(tasks@).filter(
            |t: TaskView| filter_keeps(t, query.filter@),
        ).to_multiset(),
        same_id_classes(
            task_views(r.tasks@),
            task_views(tasks@).filter(|t: TaskView| filter_keeps(t, query.filter@)),
        ),
{
    let ghost keep = |t: TaskView| filter_keeps(t, query.filter@);
    let ghost all = task_views(tasks@);
    let mut kept: Vec<Task> = Vec::new();
    let mut rest = tasks;
    let ghost mut done: Seq<TaskView> = Seq::empty();
    assert(task_views(kept@) =~= Seq::<TaskView>::empty());
    while rest.len() > 0
        invariant
            done + task_views(rest@) == all,
            task_views(kept@) == done.filter(keep),
            keep == (|t: TaskView| filter_keeps(t, query.filter@)),
        decreases rest.len(),
    {
        let ghost before = task_views(rest@);
        let task = rest.remove(0);
        proof {
            reveal_with_fuel(Seq::filter, 1);
            assert(before =~= seq![task@] + task_views(rest@));
            assert(done.push(task@) + task_views(rest@) =~= done + before);
            assert(done.push(task@).drop_last() =~= done);
        }
        if matches_filter(&task, query.filter.as_str()) {
            kept.push(task);
            assert(task_views(kept@) =~= done.filter(keep).push(task@));
        }
        proof {
            done = done.push(task@);
        }
    }
    assert(done =~= all);
    sort_tasks_by_id(kept.as_mut_slice());
    ProjectTemplate { project_id, tasks: kept }
}

/// Whether the project id and the new task's id are both valid.
pub fn new_task_ids_valid(project_id: &str, form: &CreateTaskForm) -> (r: bool)
    ensures
        r == (valid_id(project_id@) && valid_id(form.task_id@)),
{
    is_valid_id(project_id) && is_valid_id(form.task_id.as_str())
}

} // verus!
