use vstd::prelude::*;

pub mod executor;
pub mod keyboard;
pub mod simple_executor;

verus! {

/// A unique identifier assigned to every spawned [`Task`].
#[derive(Debug, Clone, Copy, PartialEq, Eq, Structural, PartialOrd, Ord, Hash)]
pub struct TaskId(u64);

impl View for TaskId {
    type V = u64;

    closed spec fn view(&self) -> u64 {
        self.0
    }
}

impl TaskId {
    /// Two ids are equal exactly when their raw values are.
    pub proof fn lemma_view_injective(a: TaskId, b: TaskId)
        ensures
            a == b <==> a@ == b@,
    {
    }

    /// Takes the next id from the counter `next` and advances it; ids taken
    /// from one counter are unique and increasing.
    pub fn new(next: &mut u64) -> (r: TaskId)
        requires
            *old(next) < u64::MAX,
        ensures
            r@ == *old(next),
            *final(next) == *old(next) + 1,
    {
        let id = TaskId(*next);
        *next = *next + 1;
        id
    }

    /// The raw value of this id.
    pub fn as_u64(self) -> (r: u64)
        ensures
            r == self@,
    {
        self.0
    }
}

/// A cooperative unit of asynchronous work: an id and the future `F` that is
/// polled to run it.
pub struct Task<F> {
    id: TaskId,
    future: F,
}

impl<F> Task<F> {
    /// Wraps `future` in a task with id `id`.
    pub fn new(id: TaskId, future: F) -> (r: Task<F>)
        ensures
            r.spec_id() == id,
            r.spec_future() == future,
    {
        Task { id, future }
    }

    /// The id of the task.
    pub closed spec fn spec_id(&self) -> TaskId {
        self.id
    }

    /// The future of the task.
    pub closed spec fn spec_future(&self) -> F {
        self.future
    }

    /// Returns the task's id.
    pub fn id(&self) -> (r: TaskId)
        ensures
            r == self.spec_id(),
    {
        self.id
    }

    /// The future of the task, to be polled in place.
    pub fn future_mut(&mut self) -> (r: &mut F)
        ensures
            *r == old(self).spec_future(),
            final(self).spec_id() == old(self).spec_id(),
            final(self).spec_future() == *final(r),
    {
        &mut self.future
    }
}

/// What polling a task once gave.
#[derive(Debug, Clone, Copy, PartialEq, Eq, Structural)]
pub enum PollOutcome {
    /// The task ran to completion.
    Ready,
    /// The task waits to be woken.
    Pending,
}

} // verus!
