//! Laws of the repository that relate several operations, stated over the
//! same spec functions the operations' contracts use.

use crate::repo::contains_id;
use crate::repo::spec_planned_tasks;
use crate::repo::spec_today_tasks;
use crate::repo::TaskRepository;
use crate::task::apply_patch;
use crate::task::is_due_today;
use crate::task::is_planned;
use crate::task::task_of_input;
use crate::task::TaskInputView;
use crate::task::TaskView;
use crate::task::UpdateTaskInputView;
use vstd::prelude::*;

verus! {

/// In a well-formed repository all stored ids are pairwise distinct.
pub proof fn lemma_wf_ids_distinct(r: &TaskRepository)
    requires
        r.wf(),
    ensures
        forall|i: int, j: int|
            0 <= i < j < r@.len() ==> r@[i].id != r@[j].id,
{
}

/// Ids returned by two creates, in call order, are strictly increasing
/// (hence pairwise distinct over any sequence of creates). The first two
/// premises are `add_task`'s contract for the first call; the third holds
/// because no operation ever decreases the counter; the last is `add_task`'s
/// contract for the second call.
pub proof fn lemma_create_ids_strictly_increase(
    first_id: u64,
    counter_after_first: u64,
    counter_before_second: u64,
    second_id: u64,
)
    requires
        counter_after_first == first_id + 1,
        counter_after_first <= counter_before_second,
        second_id == counter_before_second,
    ensures
        first_id < second_id,
{
}

/// An id absent from the store stays absent across a create, provided the id
/// lies below the counter — which holds of every id the store ever assigned.
/// Together with `delete_task`'s contract (a deleted id is absent, and
/// `update_task`/`delete_task` fail with `NotFound` exactly on absent ids),
/// a deleted id never reappears.
pub proof fn lemma_absent_id_stays_absent_after_create(
    s: Seq<TaskView>,
    counter: u64,
    id: u64,
    input: TaskInputView,
)
    requires
        !contains_id(s, id),
        id < counter,
    ensures
        !contains_id(s.push(task_of_input(counter, input)), id),
{
    let s2 = s.push(task_of_input(counter, input));
    assert forall|i: int| 0 <= i < s2.len() implies #[trigger] s2[i].id != id by {
        if i < s.len() {
            assert(s2[i] == s[i]);
        }
    }
}

/// An id absent from the store stays absent across a patch of any stored
/// task: a patch never changes an id.
pub proof fn lemma_absent_id_stays_absent_after_update(
    s: Seq<TaskView>,
    i: int,
    p: UpdateTaskInputView,
    id: u64,
)
    requires
        !contains_id(s, id),
        0 <= i < s.len(),
    ensures
        !contains_id(s.update(i, apply_patch(s[i], p)), id),
{
    let s2 = s.update(i, apply_patch(s[i], p));
    assert forall|j: int| 0 <= j < s2.len() implies #[trigger] s2[j].id != id by {
        assert(s[j].id != id);
    }
}

/// An id absent from the store stays absent across a delete of any task.
pub proof fn lemma_absent_id_stays_absent_after_delete(s: Seq<TaskView>, i: int, id: u64)
    requires
        !contains_id(s, id),
        0 <= i < s.len(),
    ensures
        !contains_id(s.remove(i), id),
{
    let s2 = s.remove(i);
    assert forall|j: int| 0 <= j < s2.len() implies #[trigger] s2[j].id != id by {
        if j < i {
            assert(s2[j] == s[j]);
        } else {
            assert(s2[j] == s[j + 1]);
        }
    }
}

/// A patch that mentions no field leaves the task identical to before.
pub proof fn lemma_empty_patch_is_identity(t: TaskView, p: UpdateTaskInputView)
    requires
        p.title is None,
        p.is_completed is None,
        p.is_important is None,
        p.due_date is None,
        p.reminder is None,
        p.repeat is None,
        p.assigned_to is None,
    ensures
        apply_patch(t, p) == t,
{
    assert(apply_patch(t, p) =~= t);
}

/// A task without a due date is excluded from every date-based view, at any
/// instant and in any store.
pub proof fn lemma_undated_task_excluded(t: TaskView, s: Seq<TaskView>, now_ns: u64)
    requires
        t.due_date is None,
    ensures
        !is_due_today(t, now_ns),
        !is_planned(t, now_ns),
        !spec_today_tasks(s, now_ns).contains(t),
        !spec_planned_tasks(s, now_ns).contains(t),
{
    broadcast use vstd::seq_lib::group_filter_ensures;

    if spec_today_tasks(s, now_ns).contains(t) {
        let i = choose|i: int|
            0 <= i < spec_today_tasks(s, now_ns).len() && spec_today_tasks(s, now_ns)[i] == t;
        assert(is_due_today(spec_today_tasks(s, now_ns)[i], now_ns));
    }
    if spec_planned_tasks(s, now_ns).contains(t) {
        let i = choose|i: int|
            0 <= i < spec_planned_tasks(s, now_ns).len() && spec_planned_tasks(s, now_ns)[i]
                == t;
        assert(is_planned(spec_planned_tasks(s, now_ns)[i], now_ns));
    }
}

/// A patch that explicitly clears the due date leaves a task that no "today"
/// and no "planned" view can contain, at any instant and in any store, even
/// if the task matched before.
pub proof fn lemma_cleared_due_date_excluded(
    t: TaskView,
    p: UpdateTaskInputView,
    s: Seq<TaskView>,
    now_ns: u64,
)
    requires
        p.due_date == Some(Option::<u64>::None),
    ensures
        apply_patch(t, p).due_date is None,
        !is_due_today(apply_patch(t, p), now_ns),
        !is_planned(apply_patch(t, p), now_ns),
        !spec_today_tasks(s, now_ns).contains(apply_patch(t, p)),
        !spec_planned_tasks(s, now_ns).contains(apply_patch(t, p)),
{
    lemma_undated_task_excluded(apply_patch(t, p), s, now_ns);
}

/// The count of today's tasks always equals the length of the "today" view:
/// `count_today_tasks` and `get_today_tasks` are stated over the same
/// filtered sequence.
pub proof fn lemma_count_today_matches_get_today(
    all: Seq<TaskView>,
    now_ns: u64,
    today: Seq<TaskView>,
    count: u64,
)
    requires
        today == spec_today_tasks(all, now_ns),
        count == spec_today_tasks(all, now_ns).len(),
    ensures
        count == today.len(),
{
}

} // verus!
