//! Bookkeeping of asynchronous tasks: their status and the registry that
//! hands out task identifiers and finds a task's handle by its identifier.
use vstd::prelude::*;
use vstd::string::StringExecFns;
use crate::text::{decimal, push_decimal_u64, str_eq};

verus! {

#[derive(Clone, Debug, PartialEq, Eq, Structural)]
pub enum TaskStatus {
    Pending,
    Running,
    Completed,
    Failed,
    Cancelled,
}

/// How a status is printed.
pub open spec fn status_text(s: TaskStatus) -> Seq<char> {
    match s {
        TaskStatus::Pending => "pending"@,
        TaskStatus::Running => "running"@,
        TaskStatus::Completed => "completed"@,
        TaskStatus::Failed => "failed"@,
        TaskStatus::Cancelled => "cancelled"@,
    }
}

impl TaskStatus {
    /// The printed form of the status (its `Display` form).
    pub fn to_text(&self) -> (r: String)
        ensures
            r@ == status_text(*self),
    {
        match self {
            TaskStatus::Pending => String::from_str("pending"),
            TaskStatus::Running => String::from_str("running"),
            TaskStatus::Completed => String::from_str("completed"),
            TaskStatus::Failed => String::from_str("failed"),
            TaskStatus::Cancelled => String::from_str("cancelled"),
        }
    }

    /// The status a task takes when its result is stored: `Completed` for a
    /// value, `Failed` for an error.
    pub fn after_result(succeeded: bool) -> (r: TaskStatus)
        ensures
            r == (if succeeded { TaskStatus::Completed } else { TaskStatus::Failed }),
    {
        if succeeded {
            TaskStatus::Completed
        } else {
            TaskStatus::Failed
        }
    }
}

/// What a task handle records: the task's status and, once the task has
/// finished or been cancelled, its result.
pub struct TaskState<V> {
    pub status: TaskStatus,
    pub result: Option<Result<V, String>>,
}

/// The mirror of a task's state: its status and result, an error result
/// by its text.
pub struct STask<V> {
    pub status: TaskStatus,
    pub result: Option<Result<V, Seq<char>>>,
}

pub open spec fn result_view<V>(r: Result<V, String>) -> Result<V, Seq<char>> {
    match r {
        Ok(v) => Ok(v),
        Err(m) => Err(m@),
    }
}

impl<V> View for TaskState<V> {
    type V = STask<V>;

    open spec fn view(&self) -> STask<V> {
        STask {
            status: self.status,
            result: match self.result {
                Some(r) => Some(result_view(r)),
                None => None,
            },
        }
    }
}

/// What can happen to a task: a new status, its result, or cancellation.
pub enum TaskEvent<V> {
    Status(TaskStatus),
    Finish(Result<V, Seq<char>>),
    Cancel,
}

/// The status a task takes when its result is stored.
pub open spec fn status_after<V>(r: Result<V, Seq<char>>) -> TaskStatus {
    if r is Ok {
        TaskStatus::Completed
    } else {
        TaskStatus::Failed
    }
}

/// The state of a task after one event.
pub open spec fn task_step<V>(t: STask<V>, e: TaskEvent<V>) -> STask<V> {
    match e {
        TaskEvent::Status(s) => STask { status: s, result: t.result },
        TaskEvent::Finish(r) => STask { status: status_after(r), result: Some(r) },
        TaskEvent::Cancel => STask { status: TaskStatus::Cancelled, result: Some(Err("Cancelled"@)) },
    }
}

/// The state of a task after a sequence of events, in order.
pub open spec fn task_run<V>(t: STask<V>, es: Seq<TaskEvent<V>>) -> STask<V>
    decreases es.len(),
{
    if es.len() == 0 {
        t
    } else {
        task_step(task_run(t, es.drop_last()), es.last())
    }
}

/// Joining a task gives the result of the last `Finish` or `Cancel` among
/// its events, whatever status changes came after it: the stored result
/// after a finish, the error `Cancelled` after a cancellation. When that
/// event is the last one, the status is `Completed` or `Failed` by the
/// result, or `Cancelled`.
pub proof fn lemma_task_outcome<V>(t: STask<V>, es: Seq<TaskEvent<V>>, k: int)
    requires
        0 <= k < es.len(),
        !(es[k] is Status),
        forall|j: int| k < j < es.len() ==> (#[trigger] es[j]) is Status,
    ensures
        task_run(t, es).result == task_step(t, es[k]).result,
        k == es.len() - 1 ==> task_run(t, es).status == task_step(t, es[k]).status,
    decreases es.len(),
{
    if k < es.len() - 1 {
        let init = es.drop_last();
        assert forall|j: int| k < j < init.len() implies (#[trigger] init[j]) is Status by {
            assert(init[j] == es[j]);
        }
        assert(init[k] == es[k]);
        lemma_task_outcome(t, init, k);
        assert(es.last() is Status);
    }
}

impl<V> TaskState<V> {
    /// A task that has not started: pending, with no result.
    pub fn new() -> (r: Self)
        ensures
            r.status == TaskStatus::Pending,
            r.result is None,
    {
        TaskState { status: TaskStatus::Pending, result: None }
    }

    /// Records a new status; the result stays as it is.
    pub fn set_status(&mut self, status: TaskStatus)
        ensures
            final(self).status == status,
            final(self).result == old(self).result,
            final(self)@ == task_step(old(self)@, TaskEvent::Status(status)),
    {
        self.status = status;
    }

    /// Stores the task's result: the task is completed when the result is a
    /// value and failed when it is an error.
    pub fn set_result(&mut self, result: Result<V, String>)
        ensures
            final(self).status == (if result is Ok { TaskStatus::Completed } else { TaskStatus::Failed }),
            final(self).result == Some(result),
            final(self)@ == task_step(old(self)@, TaskEvent::Finish(result_view(result))),
    {
        self.status = TaskStatus::after_result(result.is_ok());
        self.result = Some(result);
    }

    /// Cancels the task: it is cancelled, and its result is the error
    /// `Cancelled`.
    pub fn cancel(&mut self)
        ensures
            final(self).status == TaskStatus::Cancelled,
            final(self).result matches Some(Err(m)) && m@ == "Cancelled"@,
            final(self)@ == task_step(old(self)@, TaskEvent::<V>::Cancel),
    {
        self.status = TaskStatus::Cancelled;
        self.result = Some(Err(String::from_str("Cancelled")));
    }

    /// The task's result, once there is one; joining waits until there is.
    pub fn outcome(&self) -> (r: Option<&Result<V, String>>)
        ensures
            match r {
                Some(o) => self.result == Some(*o),
                None => self.result is None,
            },
    {
        match &self.result {
            Some(o) => Some(o),
            None => None,
        }
    }
}

/// The identifier of the `n`-th task: `task_n`.
pub open spec fn task_id(n: nat) -> Seq<char> {
    "task_"@ + decimal(n)
}

/// The tasks started so far, each under its identifier, and how many
/// identifiers have been handed out.
pub struct AsyncRegistry<H> {
    pub tasks: Vec<(String, H)>,
    pub counter: u64,
}

impl<H> AsyncRegistry<H> {
    /// An empty registry.
    pub fn new() -> (r: Self)
        ensures
            r.tasks@.len() == 0,
            r.counter == 0,
    {
        AsyncRegistry { tasks: Vec::new(), counter: 0 }
    }

    /// Hands out the next identifier, `task_1`, `task_2`, ...
    pub fn next_id(&mut self) -> (r: String)
        requires
            old(self).counter < u64::MAX,
        ensures
            final(self).counter == old(self).counter + 1,
            final(self).tasks == old(self).tasks,
            r@ == task_id(final(self).counter as nat),
    {
        self.counter = self.counter + 1;
        let mut r = String::from_str("task_");
        push_decimal_u64(&mut r, self.counter);
        r
    }

    /// Registers a task's handle under its identifier.
    pub fn register(&mut self, id: String, handle: H)
        ensures
            final(self).counter == old(self).counter,
            final(self).tasks@ == old(self).tasks@.push((id, handle)),
    {
        self.tasks.push((id, handle));
    }

    /// The handle of the task registered under `id` (the first such entry).
    pub fn get(&self, id: &str) -> (r: Option<&H>)
        ensures
            match r {
                Some(h) => exists|i: int|
                    0 <= i < self.tasks.len() && (#[trigger] self.tasks@[i]).0@ == id@ && h == &self.tasks@[i].1
                        && forall|k: int| 0 <= k < i ==> (#[trigger] self.tasks@[k]).0@ != id@,
                None => forall|i: int| 0 <= i < self.tasks.len() ==> (#[trigger] self.tasks@[i]).0@ != id@,
            },
    {
        let mut i: usize = 0;
        while i < self.tasks.len()
            invariant
                i <= self.tasks.len(),
                forall|k: int| 0 <= k < i ==> (#[trigger] self.tasks@[k]).0@ != id@,
            decreases self.tasks.len() - i,
        {
            if str_eq(self.tasks[i].0.as_str(), id) {
                return Some(&self.tasks[i].1);
            }
            i = i + 1;
        }
        None
    }
}

/// Decimal renderings of different numbers differ.
pub proof fn lemma_decimal_injective(a: nat, b: nat)
    requires
        decimal(a) == decimal(b),
    ensures
        a == b,
    decreases a,
{
    if a < 10 && b < 10 {
        assert(decimal(a) == seq![crate::text::digit_char(a)]);
        assert(decimal(b) == seq![crate::text::digit_char(b)]);
        assert(decimal(a)[0] == decimal(b)[0]);
        assert(seq![crate::text::digit_char(a)][0] == crate::text::digit_char(a));
        assert(seq![crate::text::digit_char(b)][0] == crate::text::digit_char(b));
        lemma_digit_char_injective(a, b);
    } else if a < 10 {
        lemma_decimal_len(b / 10);
        assert(decimal(b).len() >= 2);
    } else if b < 10 {
        lemma_decimal_len(a / 10);
        assert(decimal(a).len() >= 2);
    } else {
        let da = decimal(a / 10);
        let db = decimal(b / 10);
        assert(decimal(a) == da.push(crate::text::digit_char(a % 10)));
        assert(decimal(b) == db.push(crate::text::digit_char(b % 10)));
        assert(decimal(a).drop_last() =~= da);
        assert(decimal(b).drop_last() =~= db);
        lemma_decimal_injective(a / 10, b / 10);
        assert(decimal(a).last() == decimal(b).last());
        assert(da.push(crate::text::digit_char(a % 10)).last() == crate::text::digit_char(a % 10));
        assert(db.push(crate::text::digit_char(b % 10)).last() == crate::text::digit_char(b % 10));
        lemma_digit_char_injective(a % 10, b % 10);
    }
}

proof fn lemma_decimal_len(n: nat)
    ensures
        decimal(n).len() >= 1,
    decreases n,
{
    if n >= 10 {
        lemma_decimal_len(n / 10);
    }
}

proof fn lemma_digit_char_injective(a: nat, b: nat)
    requires
        a < 10,
        b < 10,
        crate::text::digit_char(a) == crate::text::digit_char(b),
    ensures
        a == b,
{
}

/// Identifiers handed out by the registry never repeat: different counts
/// give different identifiers.
pub proof fn lemma_task_ids_distinct(m: nat, n: nat)
    requires
        m != n,
    ensures
        task_id(m) != task_id(n),
{
    if task_id(m) == task_id(n) {
        reveal_strlit("task_");
        assert(task_id(m).skip(5) =~= decimal(m));
        assert(task_id(n).skip(5) =~= decimal(n));
        lemma_decimal_injective(m, n);
    }
}

} // verus!
