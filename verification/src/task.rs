//! The task record, the inputs that create and patch it, and the predicates
//! the filtered views are stated over.

use vstd::prelude::*;

verus! {

/// Timestamps arrive from the host in nanoseconds since the epoch.
pub const NANOS_PER_SECOND: u64 = 1_000_000_000;

/// Day boundaries are computed on seconds since the epoch.
pub const SECONDS_PER_DAY: u64 = 86400;

/// How often a task repeats. Reserved: no behaviour reads it yet.
#[derive(Clone, Copy, Debug, PartialEq, Eq, Structural)]
pub enum RepeatCycle {
    Daily,
    Weekly,
    Monthly,
    Yearly,
}

/// An opaque user identity: a byte string compared only for equality.
#[derive(Debug)]
pub struct UserId {
    pub bytes: Vec<u8>,
}

impl View for UserId {
    type V = Seq<u8>;

    open spec fn view(&self) -> Seq<u8> {
        self.bytes@
    }
}

impl UserId {
    pub fn new(bytes: Vec<u8>) -> (r: UserId)
        ensures
            r@ == bytes@,
    {
        UserId { bytes }
    }

    pub fn duplicate(&self) -> (r: UserId)
        ensures
            r@ == self@,
    {
        let bytes = self.bytes.clone();
        proof {
            assert(bytes@ =~= self.bytes@);
        }
        UserId { bytes }
    }

    /// Equality of two identities, byte for byte.
    pub fn matches(&self, other: &UserId) -> (r: bool)
        ensures
            r == (self@ == other@),
    {
        if self.bytes.len() != other.bytes.len() {
            return false;
        }
        let mut i: usize = 0;
        while i < self.bytes.len()
            invariant
                0 <= i <= self.bytes@.len(),
                self.bytes@.len() == other.bytes@.len(),
                forall|j: int| 0 <= j < i ==> self.bytes@[j] == other.bytes@[j],
            decreases self.bytes@.len() - i,
        {
            if self.bytes[i] != other.bytes[i] {
                return false;
            }
            i += 1;
        }
        proof {
            assert(self@ =~= other@);
        }
        true
    }
}

/// The mathematical value of a stored task.
#[verifier::ext_equal]
pub struct TaskView {
    pub id: u64,
    pub title: Seq<char>,
    pub is_completed: bool,
    pub is_important: bool,
    pub due_date: Option<u64>,
    pub reminder: Option<u64>,
    pub repeat: Option<RepeatCycle>,
    pub assigned_to: Option<Seq<u8>>,
}

/// A stored task record.
#[derive(Debug)]
pub struct Task {
    pub id: u64,
    pub title: String,
    pub is_completed: bool,
    pub is_important: bool,
    pub due_date: Option<u64>,
    pub reminder: Option<u64>,
    pub repeat: Option<RepeatCycle>,
    pub assigned_to: Option<UserId>,
}

impl View for Task {
    type V = TaskView;

    open spec fn view(&self) -> TaskView {
        TaskView {
            id: self.id,
            title: self.title@,
            is_completed: self.is_completed,
            is_important: self.is_important,
            due_date: self.due_date,
            reminder: self.reminder,
            repeat: self.repeat,
            assigned_to: match self.assigned_to {
                Some(u) => Some(u@),
                None => None,
            },
        }
    }
}

impl Task {
    /// An owned task with the same value as this one.
    pub fn duplicate(&self) -> (r: Task)
        ensures
            r@ == self@,
    {
        Task {
            id: self.id,
            title: self.title.clone(),
            is_completed: self.is_completed,
            is_important: self.is_important,
            due_date: self.due_date,
            reminder: self.reminder,
            repeat: self.repeat,
            assigned_to: match &self.assigned_to {
                Some(u) => Some(u.duplicate()),
                None => None,
            },
        }
    }
}

/// The mathematical value of a create request.
#[verifier::ext_equal]
pub struct TaskInputView {
    pub title: Seq<char>,
    pub is_important: Option<bool>,
    pub due_date: Option<u64>,
    pub reminder: Option<u64>,
    pub repeat: Option<RepeatCycle>,
    pub assigned_to: Option<Seq<u8>>,
}

/// What a create request carries: only the title is required; absent
/// optional fields take their defaults.
#[derive(Debug)]
pub struct TaskInput {
    pub title: String,
    pub is_important: Option<bool>,
    pub due_date: Option<u64>,
    pub reminder: Option<u64>,
    pub repeat: Option<RepeatCycle>,
    pub assigned_to: Option<UserId>,
}

impl View for TaskInput {
    type V = TaskInputView;

    open spec fn view(&self) -> TaskInputView {
        TaskInputView {
            title: self.title@,
            is_important: self.is_important,
            due_date: self.due_date,
            reminder: self.reminder,
            repeat: self.repeat,
            assigned_to: match self.assigned_to {
                Some(u) => Some(u@),
                None => None,
            },
        }
    }
}

/// The task a create request builds: the given id, the requested fields,
/// `is_completed` unconditionally false, `is_important` defaulting to false.
pub open spec fn task_of_input(id: u64, input: TaskInputView) -> TaskView {
    TaskView {
        id,
        title: input.title,
        is_completed: false,
        is_important: match input.is_important {
            Some(b) => b,
            None => false,
        },
        due_date: input.due_date,
        reminder: input.reminder,
        repeat: input.repeat,
        assigned_to: input.assigned_to,
    }
}

/// The mathematical value of a patch request.
#[verifier::ext_equal]
pub struct UpdateTaskInputView {
    pub title: Option<Seq<char>>,
    pub is_completed: Option<bool>,
    pub is_important: Option<bool>,
    pub due_date: Option<Option<u64>>,
    pub reminder: Option<Option<u64>>,
    pub repeat: Option<Option<RepeatCycle>>,
    pub assigned_to: Option<Option<Seq<u8>>>,
}

/// A partial update. Every field is independently absent (leave unchanged)
/// or present (overwrite). For the four optional task fields the carried
/// value is itself optional, so `Some(None)` clears the field: absent,
/// present-and-clear, and present-with-a-value are three distinct requests.
#[derive(Debug)]
pub struct UpdateTaskInput {
    pub title: Option<String>,
    pub is_completed: Option<bool>,
    pub is_important: Option<bool>,
    pub due_date: Option<Option<u64>>,
    pub reminder: Option<Option<u64>>,
    pub repeat: Option<Option<RepeatCycle>>,
    pub assigned_to: Option<Option<UserId>>,
}

impl View for UpdateTaskInput {
    type V = UpdateTaskInputView;

    open spec fn view(&self) -> UpdateTaskInputView {
        UpdateTaskInputView {
            title: match self.title {
                Some(ref t) => Some(t@),
                None => None,
            },
            is_completed: self.is_completed,
            is_important: self.is_important,
            due_date: self.due_date,
            reminder: self.reminder,
            repeat: self.repeat,
            assigned_to: match self.assigned_to {
                Some(Some(ref u)) => Some(Some(u@)),
                Some(None) => Some(None),
                None => None,
            },
        }
    }
}

impl UpdateTaskInput {
    /// A patch that mentions no field at all.
    pub fn empty() -> (r: UpdateTaskInput)
        ensures
            r@.title is None,
            r@.is_completed is None,
            r@.is_important is None,
            r@.due_date is None,
            r@.reminder is None,
            r@.repeat is None,
            r@.assigned_to is None,
    {
        UpdateTaskInput {
            title: None,
            is_completed: None,
            is_important: None,
            due_date: None,
            reminder: None,
            repeat: None,
            assigned_to: None,
        }
    }
}

/// The task a patch produces: each mentioned field is overwritten, each
/// unmentioned field kept; the id is never patchable.
pub open spec fn apply_patch(t: TaskView, p: UpdateTaskInputView) -> TaskView {
    TaskView {
        id: t.id,
        title: match p.title {
            Some(s) => s,
            None => t.title,
        },
        is_completed: match p.is_completed {
            Some(b) => b,
            None => t.is_completed,
        },
        is_important: match p.is_important {
            Some(b) => b,
            None => t.is_important,
        },
        due_date: match p.due_date {
            Some(d) => d,
            None => t.due_date,
        },
        reminder: match p.reminder {
            Some(r) => r,
            None => t.reminder,
        },
        repeat: match p.repeat {
            Some(r) => r,
            None => t.repeat,
        },
        assigned_to: match p.assigned_to {
            Some(a) => a,
            None => t.assigned_to,
        },
    }
}

/// Seconds since the epoch at the given nanosecond instant.
pub open spec fn spec_now_seconds(now_ns: u64) -> int {
    now_ns as int / (NANOS_PER_SECOND as int)
}

/// Start of the UTC calendar day containing the given instant, in seconds.
pub open spec fn spec_start_of_day(now_ns: u64) -> int {
    spec_now_seconds(now_ns) - spec_now_seconds(now_ns) % (SECONDS_PER_DAY as int)
}

/// Last second of the UTC calendar day containing the given instant.
pub open spec fn spec_end_of_day(now_ns: u64) -> int {
    spec_start_of_day(now_ns) + (SECONDS_PER_DAY as int) - 1
}

/// A task is active when it is not completed.
pub open spec fn is_active(t: TaskView) -> bool {
    !t.is_completed
}

/// A task is due today when it has a due date inside the current UTC
/// calendar day, both day boundaries included. A task without a due date is
/// never due today.
pub open spec fn is_due_today(t: TaskView, now_ns: u64) -> bool {
    match t.due_date {
        Some(d) => spec_start_of_day(now_ns) <= d <= spec_end_of_day(now_ns),
        None => false,
    }
}

/// A task is planned when its due date lies strictly in the future. A task
/// without a due date is never planned. A task due later today is both due
/// today and planned: the two views overlap by design.
pub open spec fn is_planned(t: TaskView, now_ns: u64) -> bool {
    match t.due_date {
        Some(d) => d > spec_now_seconds(now_ns),
        None => false,
    }
}

/// A task is assigned to the given identity when its `assigned_to` field is
/// present and equal to it.
pub open spec fn is_assigned_to(t: TaskView, caller: Seq<u8>) -> bool {
    match t.assigned_to {
        Some(a) => a == caller,
        None => false,
    }
}

} // verus!
