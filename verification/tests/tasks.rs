use apogee::scheduler::Scheduler;
use apogee::task::executor::{CoOpExecuter, ReadyStep, SpawnError, TASK_QUEUE_CAPACITY};
use apogee::task::simple_executor::SimpleExecutor;
use apogee::task::{PollOutcome, Task, TaskId};
use crossbeam_queue::ArrayQueue;
use std::future::Future;
use std::pin::Pin;
use std::sync::atomic::{AtomicUsize, Ordering};
use std::sync::{Arc, Mutex};
use std::task::{Context, Poll, Wake, Waker};

type Fut = Pin<Box<dyn Future<Output = ()>>>;

fn task(next: &mut u64, fut: impl Future<Output = ()> + 'static) -> Task<Fut> {
    Task::new(TaskId::new(next), Box::pin(fut))
}

fn poll_once(task: &mut Task<Fut>, waker: &Waker) -> PollOutcome {
    let mut cx = Context::from_waker(waker);
    match task.future_mut().as_mut().poll(&mut cx) {
        Poll::Ready(()) => PollOutcome::Ready,
        Poll::Pending => PollOutcome::Pending,
    }
}

fn run_simple(exec: &mut SimpleExecutor<Task<Fut>>) {
    let waker = Waker::noop();
    while let Some(mut t) = exec.next_task() {
        let outcome = poll_once(&mut t, waker);
        exec.after_poll(t, outcome);
    }
}

struct QueueWaker {
    id: u64,
    queue: Arc<ArrayQueue<u64>>,
}

impl Wake for QueueWaker {
    fn wake(self: Arc<Self>) {
        self.queue.push(self.id).expect("task_queue full");
    }
    fn wake_by_ref(self: &Arc<Self>) {
        self.queue.push(self.id).expect("task_queue full");
    }
}

fn run_ready_tasks(exec: &mut CoOpExecuter<Fut, Waker>, counters: &mut Scheduler) {
    loop {
        match exec.next_ready() {
            ReadyStep::Idle => break,
            ReadyStep::Stale(_) => continue,
            ReadyStep::Poll { mut task, .. } => {
                let id = task.id();
                if exec.waker(id).is_none() {
                    let w = Waker::from(Arc::new(QueueWaker { id: id.as_u64(), queue: exec.ready_queue() }));
                    exec.cache_waker(id, w);
                }
                let waker = exec.waker(id).unwrap().clone();
                let outcome = poll_once(&mut task, &waker);
                exec.finish(task, outcome, counters);
            }
        }
    }
}

#[test]
fn test_task_ids_are_unique_and_monotonic() {
    let mut next = 0u64;
    let a = TaskId::new(&mut next);
    let b = TaskId::new(&mut next);
    let c = TaskId::new(&mut next);
    assert_ne!(a, b);
    assert_ne!(b, c);
    assert!(a.as_u64() < b.as_u64());
    assert!(b.as_u64() < c.as_u64());
}

#[test]
fn test_task_carries_its_id() {
    let mut next = 7u64;
    let t = task(&mut next, async {});
    let reported = t.id();
    assert_eq!(reported, t.id());
    assert_eq!(reported.as_u64(), 7);
}

#[test]
fn test_task_runs_future_side_effects() {
    static RAN: AtomicUsize = AtomicUsize::new(0);
    let mut next = 0u64;
    let mut t = task(&mut next, async {
        RAN.store(1, Ordering::SeqCst);
    });
    assert_eq!(poll_once(&mut t, Waker::noop()), PollOutcome::Ready);
    assert_eq!(RAN.load(Ordering::SeqCst), 1);
}

#[test]
fn test_new_executor_has_no_pending_tasks() {
    let exec: SimpleExecutor<Task<Fut>> = SimpleExecutor::new();
    assert_eq!(exec.pending_tasks(), 0);
}

#[test]
fn test_spawn_increments_pending_tasks() {
    let mut next = 0u64;
    let mut exec = SimpleExecutor::new();
    exec.spawn(task(&mut next, async {}));
    exec.spawn(task(&mut next, async {}));
    assert_eq!(exec.pending_tasks(), 2);
}

#[test]
fn test_run_drains_all_ready_tasks() {
    static COUNT: AtomicUsize = AtomicUsize::new(0);
    let mut next = 0u64;
    let mut exec = SimpleExecutor::new();
    for _ in 0..5 {
        exec.spawn(task(&mut next, async {
            COUNT.fetch_add(1, Ordering::SeqCst);
        }));
    }
    run_simple(&mut exec);
    assert_eq!(exec.pending_tasks(), 0);
    assert_eq!(COUNT.load(Ordering::SeqCst), 5);
}

#[test]
fn simple_executor_polls_in_fifo_order_and_requeues_pending() {
    let mut exec = SimpleExecutor::new();
    exec.spawn(1u32);
    exec.spawn(2u32);
    exec.spawn(3u32);
    assert_eq!(exec.next_task(), Some(1));
    exec.after_poll(1, PollOutcome::Pending);
    assert_eq!(exec.next_task(), Some(2));
    exec.after_poll(2, PollOutcome::Ready);
    assert_eq!(exec.next_task(), Some(3));
    exec.after_poll(3, PollOutcome::Ready);
    assert_eq!(exec.next_task(), Some(1));
    assert_eq!(exec.pending_tasks(), 0);
    assert_eq!(exec.next_task(), None);
}

#[test]
fn simple_executor_runs_multiple_tasks() {
    static SIMPLE_COUNTER: AtomicUsize = AtomicUsize::new(0);
    let mut next = 0u64;
    let mut exec = SimpleExecutor::new();
    for _ in 0..4 {
        exec.spawn(task(&mut next, async {
            SIMPLE_COUNTER.fetch_add(1, Ordering::SeqCst);
        }));
    }
    run_simple(&mut exec);
    assert_eq!(SIMPLE_COUNTER.load(Ordering::SeqCst), 4);
}

#[test]
fn await_chain_propagates_value() {
    static AWAITED_VALUE: AtomicUsize = AtomicUsize::new(0);
    async fn produce_number() -> u32 {
        42
    }
    let mut next = 0u64;
    let mut exec = SimpleExecutor::new();
    exec.spawn(task(&mut next, async {
        let n = produce_number().await;
        AWAITED_VALUE.store(n as usize, Ordering::SeqCst);
    }));
    run_simple(&mut exec);
    assert_eq!(AWAITED_VALUE.load(Ordering::SeqCst), 42);
}

#[test]
fn test_new_executor_has_no_tasks() {
    let exec: CoOpExecuter<Fut, Waker> = CoOpExecuter::new();
    assert_eq!(exec.task_count(), 0);
    assert_eq!(exec.ready_queue().capacity(), TASK_QUEUE_CAPACITY);
}

#[test]
fn test_spawn_inserts_task_and_enqueues_id() {
    let mut next = 0u64;
    let mut counters = Scheduler::new();
    let mut exec: CoOpExecuter<Fut, Waker> = CoOpExecuter::new();
    let t = task(&mut next, async {});
    let id = t.id();
    exec.spawn(t, &mut counters).unwrap();
    assert_eq!(exec.task_count(), 1);
    assert_eq!(exec.ready_queue().pop(), Some(id.as_u64()));
}

#[test]
fn spawn_refuses_duplicate_ids() {
    let mut counters = Scheduler::new();
    let mut exec: CoOpExecuter<Fut, Waker> = CoOpExecuter::new();
    let mut next = 3u64;
    exec.spawn(task(&mut next, async {}), &mut counters).unwrap();
    let mut same = 3u64;
    assert_eq!(exec.spawn(task(&mut same, async {}), &mut counters), Err(SpawnError::DuplicateId));
    assert_eq!(exec.task_count(), 1);
    assert_eq!(counters.tasks_spawned(), 1);
}

#[test]
fn spawn_refuses_when_queue_full() {
    let mut counters = Scheduler::new();
    let mut exec: CoOpExecuter<Fut, Waker> = CoOpExecuter::new();
    let mut next = 0u64;
    for _ in 0..TASK_QUEUE_CAPACITY {
        exec.spawn(task(&mut next, async {}), &mut counters).unwrap();
    }
    assert_eq!(exec.spawn(task(&mut next, async {}), &mut counters), Err(SpawnError::QueueFull));
    assert_eq!(exec.task_count(), TASK_QUEUE_CAPACITY);
}

#[test]
fn test_run_ready_tasks_completes_simple_futures() {
    static COUNT: AtomicUsize = AtomicUsize::new(0);
    let mut next = 0u64;
    let mut counters = Scheduler::new();
    let mut exec: CoOpExecuter<Fut, Waker> = CoOpExecuter::new();
    for _ in 0..3 {
        exec.spawn(
            task(&mut next, async {
                COUNT.fetch_add(1, Ordering::SeqCst);
            }),
            &mut counters,
        )
        .unwrap();
    }
    run_ready_tasks(&mut exec, &mut counters);
    assert_eq!(COUNT.load(Ordering::SeqCst), 3);
    assert_eq!(exec.task_count(), 0, "completed tasks must be removed");
}

#[test]
fn test_run_ready_tasks_ignores_unknown_ids() {
    let mut counters = Scheduler::new();
    let mut exec: CoOpExecuter<Fut, Waker> = CoOpExecuter::new();
    exec.ready_queue().push(99).expect("queue should accept push");
    match exec.next_ready() {
        ReadyStep::Stale(id) => assert_eq!(id.as_u64(), 99),
        _ => panic!("unknown id must be skipped"),
    }
    run_ready_tasks(&mut exec, &mut counters);
    assert_eq!(exec.task_count(), 0);
}

#[test]
fn first_poll_is_reported_once() {
    let mut counters = Scheduler::new();
    let mut exec: CoOpExecuter<u8, ()> = CoOpExecuter::new();
    let mut next = 0u64;
    exec.spawn(Task::new(TaskId::new(&mut next), 1u8), &mut counters).unwrap();
    let t = match exec.next_ready() {
        ReadyStep::Poll { task, first_poll, total_tasks } => {
            assert!(first_poll);
            assert_eq!(total_tasks, 1);
            task
        }
        _ => panic!("spawned task must be polled"),
    };
    assert_eq!(exec.task_count(), 0);
    let id = t.id();
    exec.finish(t, PollOutcome::Pending, &mut counters);
    assert_eq!(exec.task_count(), 1);
    exec.ready_queue().push(id.as_u64()).unwrap();
    match exec.next_ready() {
        ReadyStep::Poll { task, first_poll, .. } => {
            assert!(!first_poll);
            exec.finish(task, PollOutcome::Ready, &mut counters);
        }
        _ => panic!("woken task must be polled"),
    }
    assert_eq!(exec.task_count(), 0);
    assert_eq!(counters.tasks_completed(), 1);
    assert_eq!(counters.tasks_alive(), 0);
}

#[test]
fn test_executor_spawn_updates_global_scheduler_counts() {
    let mut counters = Scheduler::new();
    let mut next = 0u64;
    let mut exec: CoOpExecuter<Fut, Waker> = CoOpExecuter::new();
    exec.spawn(task(&mut next, async {}), &mut counters).unwrap();
    exec.spawn(task(&mut next, async {}), &mut counters).unwrap();
    assert_eq!(counters.tasks_spawned(), 2);
    assert_eq!(counters.tasks_alive(), 2);
    run_ready_tasks(&mut exec, &mut counters);
    assert_eq!(counters.tasks_alive(), 0);
    assert_eq!(counters.tasks_completed(), 2);
}

#[test]
fn pending_task_is_repolled_after_wake() {
    struct WakeOnSecondPoll {
        polls: Arc<AtomicUsize>,
        slot: Arc<Mutex<Option<Waker>>>,
    }
    impl Future for WakeOnSecondPoll {
        type Output = ();
        fn poll(self: Pin<&mut Self>, cx: &mut Context<'_>) -> Poll<()> {
            let n = self.polls.fetch_add(1, Ordering::SeqCst);
            if n == 0 {
                *self.slot.lock().unwrap() = Some(cx.waker().clone());
                Poll::Pending
            } else {
                Poll::Ready(())
            }
        }
    }
    let polls = Arc::new(AtomicUsize::new(0));
    let slot: Arc<Mutex<Option<Waker>>> = Arc::new(Mutex::new(None));
    let mut counters = Scheduler::new();
    let mut next = 0u64;
    let mut exec: CoOpExecuter<Fut, Waker> = CoOpExecuter::new();
    let fut = WakeOnSecondPoll { polls: polls.clone(), slot: slot.clone() };
    exec.spawn(task(&mut next, fut), &mut counters).unwrap();
    run_ready_tasks(&mut exec, &mut counters);
    assert_eq!(polls.load(Ordering::SeqCst), 1);
    assert_eq!(exec.task_count(), 1, "task should still be alive");
    slot.lock().unwrap().take().unwrap().wake();
    run_ready_tasks(&mut exec, &mut counters);
    assert_eq!(polls.load(Ordering::SeqCst), 2);
    assert_eq!(exec.task_count(), 0);
}

#[test]
fn arc_array_queue_round_trip() {
    let q: Arc<ArrayQueue<u8>> = Arc::new(ArrayQueue::new(4));
    let producer = q.clone();
    producer.push(7).unwrap();
    producer.push(11).unwrap();
    assert_eq!(q.pop(), Some(7));
    assert_eq!(q.pop(), Some(11));
    assert_eq!(q.pop(), None);
}

#[test]
fn take_ready_decides_on_the_popped_id() {
    let mut counters = Scheduler::new();
    let mut exec: CoOpExecuter<u8, ()> = CoOpExecuter::new();
    let mut next = 0u64;
    exec.spawn(Task::new(TaskId::new(&mut next), 7u8), &mut counters).unwrap();
    let id = next - 1;
    assert!(matches!(exec.take_ready(None), ReadyStep::Idle));
    assert_eq!(exec.task_count(), 1);
    match exec.take_ready(Some(id + 40)) {
        ReadyStep::Stale(t) => assert_eq!(t.as_u64(), id + 40),
        _ => panic!("an id with no live task must be skipped"),
    }
    assert_eq!(exec.task_count(), 1);
    match exec.take_ready(Some(id)) {
        ReadyStep::Poll { task, first_poll, total_tasks } => {
            assert_eq!(task.id().as_u64(), id);
            assert!(first_poll);
            assert_eq!(total_tasks, 1);
            assert_eq!(exec.task_count(), 0);
            exec.finish(task, PollOutcome::Pending, &mut counters);
        }
        _ => panic!("a live task must be taken out to be polled"),
    }
    match exec.take_ready(Some(id)) {
        ReadyStep::Poll { first_poll, .. } => assert!(!first_poll),
        _ => panic!("a pending task must be polled again"),
    }
}
