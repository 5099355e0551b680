use vstd::prelude::*;

verus! {

use super::{PollOutcome, Task, TaskId};
use crate::scheduler::Scheduler;
use crossbeam_queue::ArrayQueue;
use std::collections::{BTreeMap, BTreeSet};
use std::sync::Arc;

broadcast use vstd::std_specs::btree::group_btree_axioms;

/// Capacity of the ready-task queue.
pub const TASK_QUEUE_CAPACITY: usize = 100;

/// The bounded lock-free queue of `crossbeam_queue`; its contents are not
/// modelled, as wakers push onto it concurrently.
#[verifier::external_type_specification]
#[verifier::external_body]
#[verifier::reject_recursive_types(T)]
pub struct ExArrayQueue<T>(ArrayQueue<T>);

/// The capacity that a ready queue was made with.
pub uninterp spec fn queue_capacity(q: ArrayQueue<u64>) -> usize;

/// Makes a bounded lock-free queue of task ids with room for `capacity` ids.
///
/// Calls `ArrayQueue::new`, which panics on a capacity of zero and on one whose
/// next power of two above it overflows the queue's lap counter (not so below
/// 2^31); the queue it returns has the capacity asked for.
#[verifier::external_body]
fn new_ready_queue(capacity: usize) -> (r: ArrayQueue<u64>)
    requires
        0 < capacity < 0x8000_0000,
    ensures
        queue_capacity(r) == capacity,
{
    ArrayQueue::new(capacity)
}

/// Pushes a task id onto a shared ready queue.
///
/// Calls `ArrayQueue::push`, which hands the id back in `Err` when the queue is
/// full. The queue is shared with wakers that push concurrently, so whether it
/// is full is not stated.
#[verifier::external_body]
fn queue_push(q: &ArrayQueue<u64>, id: u64) -> (r: Result<(), u64>)
    ensures
        r matches Err(v) ==> v == id,
{
    q.push(id)
}

/// Pops the oldest task id from a shared ready queue.
///
/// Calls `ArrayQueue::pop`. Wakers push onto the queue concurrently, so which
/// id (if any) comes back is not stated.
#[verifier::external_body]
fn queue_pop(q: &ArrayQueue<u64>) -> (r: Option<u64>) {
    q.pop()
}

/// Another handle to the same ready queue.
///
/// Calls `Arc::clone`, which returns a pointer to the same queue.
#[verifier::external_body]
fn share_queue(q: &Arc<ArrayQueue<u64>>) -> (r: Arc<ArrayQueue<u64>>)
    ensures
        r == *q,
{
    Arc::clone(q)
}

/// Why a task could not be spawned.
#[derive(Debug, Clone, Copy, PartialEq, Eq, Structural)]
pub enum SpawnError {
    /// A task with the same id is already spawned.
    DuplicateId,
    /// The ready queue has no room for the new task's id.
    QueueFull,
}

/// What the executor does with the next id on its ready queue.
pub enum ReadyStep<F> {
    /// The ready queue is empty.
    Idle,
    /// The id belongs to no live task (it finished after being woken): skip it.
    Stale(TaskId),
    /// Poll `task`, taken out of the executor until [`CoOpExecuter::finish`]
    /// settles it. `first_poll` tells whether it has never been polled, and
    /// `total_tasks` how many tasks were live when it was taken.
    Poll { task: Task<F>, first_poll: bool, total_tasks: usize },
}

/// What the contracts of a [`CoOpExecuter`] speak of: the live tasks by id
/// (less the one being polled), the cached wakers by task id, the ids of
/// the tasks that have been polled at least once, and the ids that this
/// executor has pushed onto its ready queue, in order.
pub struct ExecState<F, W> {
    pub tasks: Map<u64, Task<F>>,
    pub wakers: Map<u64, W>,
    pub started: Set<u64>,
    pub pushed: Seq<u64>,
}

impl<F, W> ExecState<F, W> {
    /// Every live task is filed under its own id.
    pub open spec fn wf(self) -> bool {
        forall|k: u64| #[trigger] self.tasks.contains_key(k) ==> self.tasks[k].spec_id()@ == k
    }
}

/// Cooperative task executor with waker support: only tasks whose id is on
/// the shared ready queue are polled. `W` is the type of the cached wakers.
pub struct CoOpExecuter<F, W> {
    tasks: BTreeMap<u64, Task<F>>,
    task_queue: Arc<ArrayQueue<u64>>,
    waker_cache: BTreeMap<u64, W>,
    started_tasks: BTreeSet<u64>,
    pushed: Ghost<Seq<u64>>,
}

impl<F, W> View for CoOpExecuter<F, W> {
    type V = ExecState<F, W>;

    closed spec fn view(&self) -> ExecState<F, W> {
        ExecState {
            tasks: self.tasks@,
            wakers: self.waker_cache@,
            started: self.started_tasks@,
            pushed: self.pushed@,
        }
    }
}

impl<F, W> Default for CoOpExecuter<F, W> {
    fn default() -> (r: Self)
        ensures
            r@.wf(),
            r@.tasks == Map::<u64, Task<F>>::empty(),
            r@.wakers == Map::<u64, W>::empty(),
            r@.started == Set::<u64>::empty(),
            r@.pushed == Seq::<u64>::empty(),
            queue_capacity(*r.ready_queue_spec()) == TASK_QUEUE_CAPACITY,
    {
        CoOpExecuter::new()
    }
}

impl<F, W> CoOpExecuter<F, W> {
    /// An executor with no tasks, no wakers, and an empty ready queue of
    /// capacity [`TASK_QUEUE_CAPACITY`].
    pub fn new() -> (r: Self)
        ensures
            r@.wf(),
            r@.tasks == Map::<u64, Task<F>>::empty(),
            r@.wakers == Map::<u64, W>::empty(),
            r@.started == Set::<u64>::empty(),
            r@.pushed == Seq::<u64>::empty(),
            queue_capacity(*r.ready_queue_spec()) == TASK_QUEUE_CAPACITY,
    {
        CoOpExecuter {
            tasks: BTreeMap::new(),
            task_queue: Arc::new(new_ready_queue(TASK_QUEUE_CAPACITY)),
            waker_cache: BTreeMap::new(),
            started_tasks: BTreeSet::new(),
            pushed: Ghost(Seq::empty()),
        }
    }

    /// The shared ready queue.
    pub closed spec fn ready_queue_spec(&self) -> Arc<ArrayQueue<u64>> {
        self.task_queue
    }

    /// Another handle to the shared ready queue, for wakers to push onto.
    pub fn ready_queue(&self) -> (r: Arc<ArrayQueue<u64>>)
        ensures
            r == self.ready_queue_spec(),
    {
        share_queue(&self.task_queue)
    }

    /// Number of live tasks (ready or waiting), less one being polled.
    pub fn task_count(&self) -> (r: usize)
        ensures
            r == self@.tasks.len(),
    {
        self.tasks.len()
    }

    /// Pushes `id` onto the ready queue, logging it when the queue took it.
    fn push_ready(&mut self, id: u64) -> (r: Result<(), u64>)
        ensures
            r matches Err(v) ==> v == id,
            r is Ok ==> final(self)@ == (ExecState { pushed: old(self)@.pushed.push(id), ..old(self)@ }),
            r is Err ==> final(self)@ == old(self)@,
            final(self).ready_queue_spec() == old(self).ready_queue_spec(),
    {
        let r = queue_push(&self.task_queue, id);
        if r.is_ok() {
            proof {
                self.pushed@ = self.pushed@.push(id);
            }
        }
        r
    }

    /// Spawns `task`: it joins the live tasks and its id is pushed onto the
    /// ready queue so that it is polled soon; the spawn is counted in
    /// `counters`. Refused, with nothing changed, when a task with the same id
    /// is live or when the ready queue is full.
    pub fn spawn(&mut self, task: Task<F>, counters: &mut Scheduler) -> (r: Result<(), SpawnError>)
        requires
            old(self)@.wf(),
        ensures
            final(self)@.wf(),
            (r == Err::<(), SpawnError>(SpawnError::DuplicateId)) == old(self)@.tasks.contains_key(
                task.spec_id()@,
            ),
            r is Ok ==> {
                &&& final(self)@ == (ExecState {
                    tasks: old(self)@.tasks.insert(task.spec_id()@, task),
                    pushed: old(self)@.pushed.push(task.spec_id()@),
                    ..old(self)@
                })
                &&& final(counters)@ == old(counters)@.after_task_spawned()
            },
            r is Err ==> final(self)@ == old(self)@ && final(counters)@ == old(counters)@,
            final(self).ready_queue_spec() == old(self).ready_queue_spec(),
    {
        let id = task.id().as_u64();
        if self.tasks.contains_key(&id) {
            assert(self@.tasks =~= old(self)@.tasks);
            return Err(SpawnError::DuplicateId);
        }
        self.tasks.insert(id, task);
        assert(self@.tasks =~= old(self)@.tasks.insert(id, task));
        match self.push_ready(id) {
            Ok(()) => {
                counters.note_task_spawned();
                assert(self@.wf());
                Ok(())
            },
            Err(_) => {
                self.tasks.remove(&id);
                assert(self@.tasks =~= old(self)@.tasks);
                Err(SpawnError::QueueFull)
            },
        }
    }

    /// Pops the next id off the ready queue and decides what to do with it:
    /// nothing when the queue is empty, skip it when its task has finished,
    /// else take its task out to be polled, marking it as started.
    pub fn next_ready(&mut self) -> (r: ReadyStep<F>)
        requires
            old(self)@.wf(),
        ensures
            final(self)@.wf(),
            final(self).ready_queue_spec() == old(self).ready_queue_spec(),
            r is Idle ==> final(self)@ == old(self)@,
            r matches ReadyStep::Stale(id) ==> {
                &&& !old(self)@.tasks.contains_key(id@)
                &&& final(self)@ == old(self)@
            },
            r matches ReadyStep::Poll { task, first_poll, total_tasks } ==> {
                let id = task.spec_id()@;
                &&& old(self)@.tasks.contains_key(id)
                &&& task == old(self)@.tasks[id]
                &&& first_poll == !old(self)@.started.contains(id)
                &&& total_tasks == old(self)@.tasks.len()
                &&& final(self)@ == (ExecState {
                    tasks: old(self)@.tasks.remove(id),
                    started: old(self)@.started.insert(id),
                    ..old(self)@
                })
            },
    {
        let popped = queue_pop(&self.task_queue);
        self.take_ready(popped)
    }

    /// Decides what to do with `popped`, the id taken off the ready queue (if
    /// any): nothing when there is none, skip it when its task has finished,
    /// else take its task out to be polled, marking it as started.
    pub fn take_ready(&mut self, popped: Option<u64>) -> (r: ReadyStep<F>)
        requires
            old(self)@.wf(),
        ensures
            final(self)@.wf(),
            final(self).ready_queue_spec() == old(self).ready_queue_spec(),
            match popped {
                None => r is Idle && final(self)@ == old(self)@,
                Some(id) => if !old(self)@.tasks.contains_key(id) {
                    &&& r matches ReadyStep::Stale(t) && t@ == id
                    &&& final(self)@ == old(self)@
                } else {
                    &&& r matches ReadyStep::Poll { task, first_poll, total_tasks } && task
                        == old(self)@.tasks[id] && first_poll == !old(self)@.started.contains(id)
                        && total_tasks == old(self)@.tasks.len()
                    &&& final(self)@ == (ExecState {
                        tasks: old(self)@.tasks.remove(id),
                        started: old(self)@.started.insert(id),
                        ..old(self)@
                    })
                },
            },
    {
        match popped {
            None => ReadyStep::Idle,
            Some(id) => {
                let total_tasks = self.tasks.len();
                match self.tasks.remove(&id) {
                    None => {
                        assert(self@.tasks =~= old(self)@.tasks);
                        ReadyStep::Stale(TaskId(id))
                    },
                    Some(task) => {
                        let first_poll = self.started_tasks.insert(id);
                        assert(self@.tasks =~= old(self)@.tasks.remove(id));
                        ReadyStep::Poll { task, first_poll, total_tasks }
                    },
                }
            },
        }
    }

    /// Settles a task that was just polled: a task that ran to completion is
    /// dropped together with its cached waker and its started mark, and the
    /// completion is counted in `counters`; a pending task rejoins the live
    /// tasks until its waker pushes its id again.
    pub fn finish(&mut self, task: Task<F>, outcome: PollOutcome, counters: &mut Scheduler)
        requires
            old(self)@.wf(),
        ensures
            final(self)@.wf(),
            final(self).ready_queue_spec() == old(self).ready_queue_spec(),
            outcome == PollOutcome::Ready ==> {
                let id = task.spec_id()@;
                &&& final(self)@ == (ExecState {
                    tasks: old(self)@.tasks,
                    wakers: old(self)@.wakers.remove(id),
                    started: old(self)@.started.remove(id),
                    pushed: old(self)@.pushed,
                })
                &&& final(counters)@ == old(counters)@.after_task_completed()
            },
            outcome == PollOutcome::Pending ==> {
                &&& final(self)@ == (ExecState {
                    tasks: old(self)@.tasks.insert(task.spec_id()@, task),
                    ..old(self)@
                })
                &&& final(counters)@ == old(counters)@
            },
    {
        let id = task.id().as_u64();
        match outcome {
            PollOutcome::Ready => {
                self.waker_cache.remove(&id);
                self.started_tasks.remove(&id);
                counters.note_task_completed();
                assert(self@.tasks =~= old(self)@.tasks);
            },
            PollOutcome::Pending => {
                self.tasks.insert(id, task);
                assert(self@.tasks =~= old(self)@.tasks.insert(id, task));
            },
        }
    }

    /// The cached waker of the task `id`, if there is one.
    pub fn waker(&self, id: TaskId) -> (r: Option<&W>)
        ensures
            match r {
                Some(w) => self@.wakers.contains_key(id@) && *w == self@.wakers[id@],
                None => !self@.wakers.contains_key(id@),
            },
    {
        self.waker_cache.get(&id.as_u64())
    }

    /// Caches `waker` as the waker of the task `id`.
    pub fn cache_waker(&mut self, id: TaskId, waker: W)
        requires
            old(self)@.wf(),
        ensures
            final(self)@.wf(),
            final(self)@ == (ExecState { wakers: old(self)@.wakers.insert(id@, waker), ..old(self)@ }),
            final(self).ready_queue_spec() == old(self).ready_queue_spec(),
    {
        self.waker_cache.insert(id.as_u64(), waker);
        assert(self@.tasks =~= old(self)@.tasks);
        assert(self@.wf());
    }
}

} // verus!
