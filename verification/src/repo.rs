//! The task repository: an owned collection keyed by a monotonically
//! increasing identifier, with create, patch, delete, and filtered reads.

use crate::task::apply_patch;
use crate::task::is_active;
use crate::task::is_assigned_to;
use crate::task::is_due_today;
use crate::task::is_planned;
use crate::task::task_of_input;
use crate::task::Task;
use crate::task::TaskInput;
use crate::task::TaskView;
use crate::task::UpdateTaskInput;
use crate::task::UserId;
use crate::task::NANOS_PER_SECOND;
use crate::task::SECONDS_PER_DAY;
use vstd::prelude::*;

verus! {

/// The "active" filter as a function value, shared by contract and proof.
pub open spec fn active_pred() -> spec_fn(TaskView) -> bool {
    |t: TaskView| is_active(t)
}

/// The "completed" filter as a function value.
pub open spec fn completed_pred() -> spec_fn(TaskView) -> bool {
    |t: TaskView| t.is_completed
}

/// The "important" filter as a function value.
pub open spec fn important_pred() -> spec_fn(TaskView) -> bool {
    |t: TaskView| t.is_important
}

/// The "due today" filter as a function value.
pub open spec fn today_pred(now_ns: u64) -> spec_fn(TaskView) -> bool {
    |t: TaskView| is_due_today(t, now_ns)
}

/// The "planned" filter as a function value.
pub open spec fn planned_pred(now_ns: u64) -> spec_fn(TaskView) -> bool {
    |t: TaskView| is_planned(t, now_ns)
}

/// The "assigned to the caller" filter as a function value.
pub open spec fn assigned_pred(caller: Seq<u8>) -> spec_fn(TaskView) -> bool {
    |t: TaskView| is_assigned_to(t, caller)
}

/// The tasks that are not completed, in storage order.
pub open spec fn spec_active_tasks(s: Seq<TaskView>) -> Seq<TaskView> {
    s.filter(active_pred())
}

/// The tasks that are completed, in storage order.
pub open spec fn spec_completed_tasks(s: Seq<TaskView>) -> Seq<TaskView> {
    s.filter(completed_pred())
}

/// The tasks marked important, in storage order.
pub open spec fn spec_important_tasks(s: Seq<TaskView>) -> Seq<TaskView> {
    s.filter(important_pred())
}

/// The tasks due within the current UTC calendar day, in storage order.
pub open spec fn spec_today_tasks(s: Seq<TaskView>, now_ns: u64) -> Seq<TaskView> {
    s.filter(today_pred(now_ns))
}

/// The tasks whose due date lies strictly in the future, in storage order.
pub open spec fn spec_planned_tasks(s: Seq<TaskView>, now_ns: u64) -> Seq<TaskView> {
    s.filter(planned_pred(now_ns))
}

/// The tasks assigned to the given identity, in storage order.
pub open spec fn spec_assigned_tasks(s: Seq<TaskView>, caller: Seq<u8>) -> Seq<TaskView> {
    s.filter(assigned_pred(caller))
}

/// Filtering a sequence extended by one element keeps the old result and
/// appends the element exactly when it satisfies the predicate.
proof fn lemma_filter_push<A>(s: Seq<A>, pred: spec_fn(A) -> bool, x: A)
    ensures
        s.push(x).filter(pred) == (if pred(x) {
            s.filter(pred).push(x)
        } else {
            s.filter(pred)
        }),
{
    reveal(Seq::filter);
    assert(s.push(x).drop_last() =~= s);
    assert(s.push(x).last() == x);
}

/// The one failure the repository knows: an id that no stored task carries.
#[derive(Clone, Copy, Debug, PartialEq, Eq, Structural)]
pub enum TaskError {
    NotFound,
}

/// Whether some stored task carries the given id.
pub open spec fn contains_id(s: Seq<TaskView>, id: u64) -> bool {
    exists|i: int| 0 <= i < s.len() && #[trigger] s[i].id == id
}

/// The position of the task carrying the given id (unique in a well-formed
/// repository).
pub open spec fn idx_of(s: Seq<TaskView>, id: u64) -> int {
    choose|i: int| 0 <= i < s.len() && #[trigger] s[i].id == id
}

/// The sole owner of the stored tasks and of the identifier counter.
pub struct TaskRepository {
    pub tasks: Vec<Task>,
    pub next_id: u64,
}

/// The views of a sequence of stored tasks.
pub open spec fn views_of(s: Seq<Task>) -> Seq<TaskView> {
    s.map_values(|t: Task| t@)
}

impl View for TaskRepository {
    type V = Seq<TaskView>;

    open spec fn view(&self) -> Seq<TaskView> {
        views_of(self.tasks@)
    }
}

impl TaskRepository {
    /// Well-formedness: ids are strictly increasing in storage order (hence
    /// pairwise distinct), and every stored id is below the counter.
    pub open spec fn wf(&self) -> bool {
        &&& forall|i: int, j: int|
            0 <= i < j < self@.len() ==> self@[i].id < self@[j].id
        &&& forall|i: int| 0 <= i < self@.len() ==> #[trigger] self@[i].id < self.next_id
    }

    /// An empty repository whose counter starts at zero.
    pub fn new() -> (r: TaskRepository)
        ensures
            r.wf(),
            r@ == Seq::<TaskView>::empty(),
            r.next_id == 0,
    {
        let r = TaskRepository { tasks: Vec::new(), next_id: 0 };
        proof {
            assert(r@ =~= Seq::<TaskView>::empty());
        }
        r
    }

    /// Create a task: the current counter value becomes the new id, the
    /// counter advances by exactly one, and the new task is stored with
    /// `is_completed` false and the defaults of `task_of_input`. There is no
    /// failure path; the counter must not yet have reached its ceiling.
    pub fn add_task(&mut self, input: TaskInput) -> (id: u64)
        requires
            old(self).wf(),
            old(self).next_id < u64::MAX,
        ensures
            final(self).wf(),
            id == old(self).next_id,
            final(self).next_id == old(self).next_id + 1,
            final(self)@ == old(self)@.push(task_of_input(id, input@)),
    {
        let id = self.next_id;
        self.next_id = self.next_id + 1;
        let task = Task {
            id,
            title: input.title,
            is_completed: false,
            is_important: match input.is_important {
                Some(b) => b,
                None => false,
            },
            due_date: input.due_date,
            reminder: input.reminder,
            repeat: input.repeat,
            assigned_to: input.assigned_to,
        };
        self.tasks.push(task);
        proof {
            assert(self@ =~= old(self)@.push(task_of_input(id, input@)));
        }
        id
    }

    /// Patch the task with the given id: every mentioned field of the patch
    /// is applied, every unmentioned field kept, and no other task changes.
    /// Fails with `NotFound`, changing nothing, exactly when no stored task
    /// carries the id.
    pub fn update_task(&mut self, id: u64, input: UpdateTaskInput) -> (r: Result<
        (),
        TaskError,
    >)
        requires
            old(self).wf(),
        ensures
            final(self).wf(),
            final(self).next_id == old(self).next_id,
            r is Ok <==> contains_id(old(self)@, id),
            r is Ok ==> final(self)@ == old(self)@.update(
                idx_of(old(self)@, id),
                apply_patch(old(self)@[idx_of(old(self)@, id)], input@),
            ),
            r is Err ==> r == Result::<(), TaskError>::Err(TaskError::NotFound)
                && final(self)@ == old(self)@,
    {
        let n = self.tasks.len();
        let mut i: usize = 0;
        while i < n
            invariant
                old(self).wf(),
                self.tasks@ == old(self).tasks@,
                self.next_id == old(self).next_id,
                n == self.tasks@.len(),
                0 <= i <= n,
                forall|j: int| 0 <= j < i ==> #[trigger] self@[j].id != id,
            decreases n - i,
        {
            if self.tasks[i].id == id {
                proof {
                    lemma_idx_of_unique(self@, id, i as int);
                }
                let ghost prior = self@;
                let mut t = self.tasks.remove(i);
                if let Some(title) = input.title {
                    t.title = title;
                }
                if let Some(is_completed) = input.is_completed {
                    t.is_completed = is_completed;
                }
                if let Some(is_important) = input.is_important {
                    t.is_important = is_important;
                }
                if let Some(due_date) = input.due_date {
                    t.due_date = due_date;
                }
                if let Some(reminder) = input.reminder {
                    t.reminder = reminder;
                }
                if let Some(repeat) = input.repeat {
                    t.repeat = repeat;
                }
                if let Some(assigned_to) = input.assigned_to {
                    t.assigned_to = assigned_to;
                }
                proof {
                    assert(t@ =~= apply_patch(prior[i as int], input@));
                }
                self.tasks.insert(i, t);
                proof {
                    assert(self@ =~= prior.update(
                        i as int,
                        apply_patch(prior[i as int], input@),
                    ));
                    assert forall|k: int| 0 <= k < self@.len() implies #[trigger] self@[k].id
                        == prior[k].id by {
                        if k == i as int {
                            assert(self@[k].id == prior[k].id);
                        }
                    }
                }
                return Ok(());
            }
            i += 1;
        }
        Err(TaskError::NotFound)
    }

    /// Remove the task with the given id; afterwards no stored task carries
    /// it. Fails with `NotFound`, changing nothing, exactly when no stored
    /// task carries the id.
    pub fn delete_task(&mut self, id: u64) -> (r: Result<(), TaskError>)
        requires
            old(self).wf(),
        ensures
            final(self).wf(),
            final(self).next_id == old(self).next_id,
            r is Ok <==> contains_id(old(self)@, id),
            r is Ok ==> final(self)@ == old(self)@.remove(idx_of(old(self)@, id)),
            r is Ok ==> !contains_id(final(self)@, id),
            r is Err ==> r == Result::<(), TaskError>::Err(TaskError::NotFound)
                && final(self)@ == old(self)@,
    {
        let n = self.tasks.len();
        let mut i: usize = 0;
        while i < n
            invariant
                old(self).wf(),
                self.tasks@ == old(self).tasks@,
                self.next_id == old(self).next_id,
                n == self.tasks@.len(),
                0 <= i <= n,
                forall|j: int| 0 <= j < i ==> #[trigger] self@[j].id != id,
            decreases n - i,
        {
            if self.tasks[i].id == id {
                proof {
                    lemma_idx_of_unique(self@, id, i as int);
                }
                let ghost prior = self@;
                self.tasks.remove(i);
                proof {
                    assert(self@ =~= prior.remove(i as int));
                    assert forall|j: int| 0 <= j < self@.len() implies #[trigger] self@[j].id
                        != id by {
                        if j < i as int {
                            assert(self@[j] == prior[j]);
                            assert(prior[j].id < prior[i as int].id);
                        } else {
                            assert(self@[j] == prior[j + 1]);
                            assert(prior[i as int].id < prior[j + 1].id);
                        }
                    }
                }
                return Ok(());
            }
            i += 1;
        }
        Err(TaskError::NotFound)
    }

    /// Owned copies of every stored task, in storage order.
    pub fn get_all_tasks(&self) -> (r: Vec<Task>)
        ensures
            views_of(r@) == self@,
    {
        let n = self.tasks.len();
        let mut out: Vec<Task> = Vec::new();
        let mut i: usize = 0;
        while i < n
            invariant
                n == self.tasks@.len(),
                0 <= i <= n,
                views_of(out@) == self@.take(i as int),
            decreases n - i,
        {
            let ghost pre = out@;
            out.push(self.tasks[i].duplicate());
            proof {
                assert(views_of(out@) =~= views_of(pre).push(self@[i as int]));
                assert(views_of(out@) =~= self@.take(i + 1 as int));
            }
            i += 1;
        }
        proof {
            assert(self@.take(n as int) =~= self@);
        }
        out
    }

    /// Owned copies of the tasks that are not completed.
    pub fn get_active_tasks(&self) -> (r: Vec<Task>)
        ensures
            views_of(r@) == spec_active_tasks(self@),
    {
        let n = self.tasks.len();
        let mut out: Vec<Task> = Vec::new();
        let mut i: usize = 0;
        while i < n
            invariant
                n == self.tasks@.len(),
                0 <= i <= n,
                views_of(out@) == spec_active_tasks(self@.take(i as int)),
            decreases n - i,
        {
            let ghost pre = out@;
            let t = &self.tasks[i];
            if !t.is_completed {
                out.push(t.duplicate());
            }
            proof {
                assert(self@.take(i as int).push(self@[i as int]) =~= self@.take(i + 1 as int));
                lemma_filter_push(self@.take(i as int), active_pred(), self@[i as int]);
                if !t.is_completed {
                    assert(views_of(out@) =~= views_of(pre).push(self@[i as int]));
                }
            }
            i += 1;
        }
        proof {
            assert(self@.take(n as int) =~= self@);
        }
        out
    }

    /// Owned copies of the tasks that are completed.
    pub fn get_completed_tasks(&self) -> (r: Vec<Task>)
        ensures
            views_of(r@) == spec_completed_tasks(self@),
    {
        let n = self.tasks.len();
        let mut out: Vec<Task> = Vec::new();
        let mut i: usize = 0;
        while i < n
            invariant
                n == self.tasks@.len(),
                0 <= i <= n,
                views_of(out@) == spec_completed_tasks(self@.take(i as int)),
            decreases n - i,
        {
            let ghost pre = out@;
            let t = &self.tasks[i];
            if t.is_completed {
                out.push(t.duplicate());
            }
            proof {
                assert(self@.take(i as int).push(self@[i as int]) =~= self@.take(i + 1 as int));
                lemma_filter_push(self@.take(i as int), completed_pred(), self@[i as int]);
                if t.is_completed {
                    assert(views_of(out@) =~= views_of(pre).push(self@[i as int]));
                }
            }
            i += 1;
        }
        proof {
            assert(self@.take(n as int) =~= self@);
        }
        out
    }

    /// Owned copies of the tasks marked important.
    pub fn get_important_tasks(&self) -> (r: Vec<Task>)
        ensures
            views_of(r@) == spec_important_tasks(self@),
    {
        let n = self.tasks.len();
        let mut out: Vec<Task> = Vec::new();
        let mut i: usize = 0;
        while i < n
            invariant
                n == self.tasks@.len(),
                0 <= i <= n,
                views_of(out@) == spec_important_tasks(self@.take(i as int)),
            decreases n - i,
        {
            let ghost pre = out@;
            let t = &self.tasks[i];
            if t.is_important {
                out.push(t.duplicate());
            }
            proof {
                assert(self@.take(i as int).push(self@[i as int]) =~= self@.take(i + 1 as int));
                lemma_filter_push(self@.take(i as int), important_pred(), self@[i as int]);
                if t.is_important {
                    assert(views_of(out@) =~= views_of(pre).push(self@[i as int]));
                }
            }
            i += 1;
        }
        proof {
            assert(self@.take(n as int) =~= self@);
        }
        out
    }

    /// Owned copies of the tasks due within the current UTC calendar day,
    /// derived from the wall-clock time `now_ns` (nanoseconds since the
    /// epoch) supplied by the host at call time.
    pub fn get_today_tasks(&self, now_ns: u64) -> (r: Vec<Task>)
        ensures
            views_of(r@) == spec_today_tasks(self@, now_ns),
    {
        let now_seconds = now_ns / NANOS_PER_SECOND;
        let start_of_day = now_seconds - now_seconds % SECONDS_PER_DAY;
        proof {
            vstd::arithmetic::div_mod::lemma_div_is_ordered(
                now_ns as int,
                u64::MAX as int,
                NANOS_PER_SECOND as int,
            );
        }
        let end_of_day = start_of_day + (SECONDS_PER_DAY - 1);
        let n = self.tasks.len();
        let mut out: Vec<Task> = Vec::new();
        let mut i: usize = 0;
        while i < n
            invariant
                n == self.tasks@.len(),
                0 <= i <= n,
                start_of_day == crate::task::spec_start_of_day(now_ns),
                end_of_day == crate::task::spec_end_of_day(now_ns),
                views_of(out@) == spec_today_tasks(self@.take(i as int), now_ns),
            decreases n - i,
        {
            let ghost pre = out@;
            let t = &self.tasks[i];
            let due_today = match t.due_date {
                Some(d) => start_of_day <= d && d <= end_of_day,
                None => false,
            };
            if due_today {
                out.push(t.duplicate());
            }
            proof {
                assert(due_today == is_due_today(self@[i as int], now_ns));
                assert(self@.take(i as int).push(self@[i as int]) =~= self@.take(i + 1 as int));
                lemma_filter_push(self@.take(i as int), today_pred(now_ns), self@[i as int]);
                if due_today {
                    assert(views_of(out@) =~= views_of(pre).push(self@[i as int]));
                }
            }
            i += 1;
        }
        proof {
            assert(self@.take(n as int) =~= self@);
        }
        out
    }

    /// Owned copies of the tasks whose due date lies strictly after the
    /// instant `now_ns` (nanoseconds since the epoch) supplied by the host.
    pub fn get_planned_tasks(&self, now_ns: u64) -> (r: Vec<Task>)
        ensures
            views_of(r@) == spec_planned_tasks(self@, now_ns),
    {
        let now_seconds = now_ns / NANOS_PER_SECOND;
        let n = self.tasks.len();
        let mut out: Vec<Task> = Vec::new();
        let mut i: usize = 0;
        while i < n
            invariant
                n == self.tasks@.len(),
                0 <= i <= n,
                now_seconds == crate::task::spec_now_seconds(now_ns),
                views_of(out@) == spec_planned_tasks(self@.take(i as int), now_ns),
            decreases n - i,
        {
            let ghost pre = out@;
            let t = &self.tasks[i];
            let planned = match t.due_date {
                Some(d) => d > now_seconds,
                None => false,
            };
            if planned {
                out.push(t.duplicate());
            }
            proof {
                assert(planned == is_planned(self@[i as int], now_ns));
                assert(self@.take(i as int).push(self@[i as int]) =~= self@.take(i + 1 as int));
                lemma_filter_push(self@.take(i as int), planned_pred(now_ns), self@[i as int]);
                if planned {
                    assert(views_of(out@) =~= views_of(pre).push(self@[i as int]));
                }
            }
            i += 1;
        }
        proof {
            assert(self@.take(n as int) =~= self@);
        }
        out
    }

    /// Owned copies of the tasks assigned to the given caller identity,
    /// supplied by the host per call.
    pub fn get_assigned_tasks(&self, caller: &UserId) -> (r: Vec<Task>)
        ensures
            views_of(r@) == spec_assigned_tasks(self@, caller@),
    {
        let n = self.tasks.len();
        let mut out: Vec<Task> = Vec::new();
        let mut i: usize = 0;
        while i < n
            invariant
                n == self.tasks@.len(),
                0 <= i <= n,
                views_of(out@) == spec_assigned_tasks(self@.take(i as int), caller@),
            decreases n - i,
        {
            let ghost pre = out@;
            let t = &self.tasks[i];
            let assigned = match &t.assigned_to {
                Some(a) => a.matches(caller),
                None => false,
            };
            if assigned {
                out.push(t.duplicate());
            }
            proof {
                assert(assigned == is_assigned_to(self@[i as int], caller@));
                assert(self@.take(i as int).push(self@[i as int]) =~= self@.take(i + 1 as int));
                lemma_filter_push(self@.take(i as int), assigned_pred(caller@), self@[i as int]);
                if assigned {
                    assert(views_of(out@) =~= views_of(pre).push(self@[i as int]));
                }
            }
            i += 1;
        }
        proof {
            assert(self@.take(n as int) =~= self@);
        }
        out
    }

    /// How many tasks are due within the current UTC calendar day: exactly
    /// the length of `get_today_tasks`' result for the same instant.
    pub fn count_today_tasks(&self, now_ns: u64) -> (r: u64)
        ensures
            r == spec_today_tasks(self@, now_ns).len(),
    {
        let now_seconds = now_ns / NANOS_PER_SECOND;
        let start_of_day = now_seconds - now_seconds % SECONDS_PER_DAY;
        proof {
            vstd::arithmetic::div_mod::lemma_div_is_ordered(
                now_ns as int,
                u64::MAX as int,
                NANOS_PER_SECOND as int,
            );
        }
        let end_of_day = start_of_day + (SECONDS_PER_DAY - 1);
        let n = self.tasks.len();
        let mut count: u64 = 0;
        let mut i: usize = 0;
        while i < n
            invariant
                n == self.tasks@.len(),
                0 <= i <= n,
                count <= i,
                start_of_day == crate::task::spec_start_of_day(now_ns),
                end_of_day == crate::task::spec_end_of_day(now_ns),
                count == spec_today_tasks(self@.take(i as int), now_ns).len(),
            decreases n - i,
        {
            let t = &self.tasks[i];
            let due_today = match t.due_date {
                Some(d) => start_of_day <= d && d <= end_of_day,
                None => false,
            };
            if due_today {
                count = count + 1;
            }
            proof {
                assert(due_today == is_due_today(self@[i as int], now_ns));
                assert(self@.take(i as int).push(self@[i as int]) =~= self@.take(i + 1 as int));
                lemma_filter_push(self@.take(i as int), today_pred(now_ns), self@[i as int]);
            }
            i += 1;
        }
        proof {
            assert(self@.take(n as int) =~= self@);
        }
        count
    }
}

/// In a sequence of pairwise-distinct ids, a position holding the sought id
/// is the position `idx_of` picks.
proof fn lemma_idx_of_unique(s: Seq<TaskView>, id: u64, i: int)
    requires
        forall|p: int, q: int| 0 <= p < q < s.len() ==> s[p].id < s[q].id,
        0 <= i < s.len(),
        s[i].id == id,
    ensures
        contains_id(s, id),
        idx_of(s, id) == i,
{
    assert(contains_id(s, id));
    let j = idx_of(s, id);
    if i < j {
        assert(s[i].id < s[j].id);
    } else if j < i {
        assert(s[j].id < s[i].id);
    }
}

} // verus!
