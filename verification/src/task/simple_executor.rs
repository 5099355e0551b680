use vstd::prelude::*;

verus! {

use super::PollOutcome;
use std::collections::VecDeque;

/// Minimal FIFO executor: tasks are polled in the order they were queued, and
/// a task that is still pending goes back to the tail of the queue.
pub struct SimpleExecutor<T> {
    task_queue: VecDeque<T>,
}

impl<T> View for SimpleExecutor<T> {
    type V = Seq<T>;

    closed spec fn view(&self) -> Seq<T> {
        self.task_queue@
    }
}

impl<T> Default for SimpleExecutor<T> {
    fn default() -> (r: Self)
        ensures
            r@ == Seq::<T>::empty(),
    {
        SimpleExecutor::new()
    }
}

impl<T> SimpleExecutor<T> {
    /// Creates an empty executor.
    pub fn new() -> (r: Self)
        ensures
            r@ == Seq::<T>::empty(),
    {
        SimpleExecutor { task_queue: VecDeque::new() }
    }

    /// Queues a task behind all the others.
    pub fn spawn(&mut self, task: T)
        ensures
            final(self)@ == old(self)@.push(task),
    {
        self.task_queue.push_back(task)
    }

    /// Number of tasks waiting to be polled.
    pub fn pending_tasks(&self) -> (r: usize)
        ensures
            r == self@.len(),
    {
        self.task_queue.len()
    }

    /// Takes the task that is to be polled next, the oldest in the queue, or
    /// `None` when every task has finished.
    pub fn next_task(&mut self) -> (r: Option<T>)
        ensures
            old(self)@.len() == 0 ==> r is None && final(self)@ == old(self)@,
            old(self)@.len() > 0 ==> r == Some(old(self)@[0]) && final(self)@ == old(self)@.skip(1),
    {
        let r = self.task_queue.pop_front();
        proof {
            if old(self)@.len() > 0 {
                assert(final(self)@ =~= old(self)@.skip(1));
            }
        }
        r
    }

    /// Settles a task that was just polled: a finished task is dropped, a
    /// pending one is queued again at the tail.
    pub fn after_poll(&mut self, task: T, outcome: PollOutcome)
        ensures
            outcome == PollOutcome::Ready ==> final(self)@ == old(self)@,
            outcome == PollOutcome::Pending ==> final(self)@ == old(self)@.push(task),
    {
        match outcome {
            PollOutcome::Ready => {},
            PollOutcome::Pending => self.task_queue.push_back(task),
        }
    }
}

} // verus!
