use apogee::scheduler::Scheduler;
use apogee::thread::{
    Context, KernelThread, Switch, ThreadId, ThreadScheduler, ThreadState, BOOTSTRAP_RAW_ID,
    STACK_SIZE,
};

#[test]
fn test_thread_ids_are_unique_and_skip_zero() {
    let mut next = 1u64;
    let a = ThreadId::new(&mut next);
    let b = ThreadId::new(&mut next);
    assert_ne!(a, b);
    assert!(a.as_u64() >= 1);
    assert!(b.as_u64() > a.as_u64());
    assert_ne!(a, ThreadId::bootstrap());
    assert_eq!(ThreadId::bootstrap().as_u64(), BOOTSTRAP_RAW_ID);
}

#[test]
fn test_kernel_thread_initial_state_and_stack_setup() {
    let mut next = 1u64;
    let entry = 0x1122_3344_5566_7788u64;
    let thread = KernelThread::new(ThreadId::new(&mut next), entry);
    assert_eq!(thread.state(), ThreadState::Ready);
    let sp = thread.stack_pointer();
    let base = thread.stack_base();
    assert!(sp > base);
    assert!(sp <= base + STACK_SIZE as u64);
    assert_eq!(sp % 8, 0);
    // Six zeroed register slots, then the entry address as the return address.
    assert_eq!((sp + 48) % 16, 8);
}

#[test]
fn test_scheduler_spawn_inserts_and_queues() {
    let mut sched = ThreadScheduler::new();
    let mut counters = Scheduler::new();
    let id = sched.spawn(0x1000, &mut counters);
    assert_eq!(sched.thread_count(), 1);
    assert_eq!(sched.ready_count(), 1);
    assert_eq!(id.as_u64(), 1);
    assert_eq!(counters.threads_alive(), 1);
    assert_eq!(counters.threads_spawned(), 1);
}

#[test]
fn yield_with_nothing_ready_stays_put() {
    let mut sched = ThreadScheduler::new();
    assert_eq!(sched.yield_now(), None);
    assert_eq!(sched.current(), ThreadId::bootstrap());
    assert_eq!(sched.ready_count(), 0);
}

#[test]
fn yield_round_trips_through_spawned_thread() {
    let mut sched = ThreadScheduler::new();
    let mut counters = Scheduler::new();
    let boot = ThreadId::bootstrap();
    let ping = sched.spawn(0x1000, &mut counters);
    // Bootstrap yields to the new thread.
    assert_eq!(sched.yield_now(), Some(Switch { prev: boot, next: ping }));
    assert_eq!(sched.current(), ping);
    assert_eq!(sched.ready_count(), 1);
    // The thread yields back to bootstrap.
    assert_eq!(sched.yield_now(), Some(Switch { prev: ping, next: boot }));
    assert_eq!(sched.current(), boot);
    // Bootstrap yields again, and the thread exits back to bootstrap.
    assert_eq!(sched.yield_now(), Some(Switch { prev: boot, next: ping }));
    assert_eq!(sched.exit_thread(&mut counters), boot);
    assert_eq!(sched.thread_count(), 0);
    assert_eq!(sched.ready_count(), 0);
    assert_eq!(sched.current(), boot);
    assert_eq!(counters.threads_alive(), 0);
    assert_eq!(counters.threads_spawned(), 1);
}

#[test]
fn round_robin_over_three_threads() {
    let mut sched = ThreadScheduler::new();
    let mut counters = Scheduler::new();
    let boot = ThreadId::bootstrap();
    let a = sched.spawn(0x1000, &mut counters);
    let b = sched.spawn(0x2000, &mut counters);
    assert_eq!(sched.yield_now().unwrap().next, a);
    assert_eq!(sched.yield_now().unwrap().next, b);
    assert_eq!(sched.yield_now().unwrap().next, boot);
    assert_eq!(sched.yield_now().unwrap().next, a);
    // a exits: b runs next, then bootstrap; a never comes back.
    assert_eq!(sched.exit_thread(&mut counters), b);
    assert_eq!(sched.thread_count(), 1);
    assert_eq!(sched.yield_now(), Some(Switch { prev: b, next: boot }));
    assert_eq!(sched.yield_now(), Some(Switch { prev: boot, next: b }));
    assert_eq!(counters.threads_alive(), 1);
}

#[test]
fn context_of_bootstrap_and_threads() {
    let mut sched = ThreadScheduler::new();
    let mut counters = Scheduler::new();
    let a = sched.spawn(0x1000, &mut counters);
    assert_eq!(sched.context_mut(ThreadId::bootstrap()).stack_pointer(), 0);
    let sp = sched.context_mut(a).stack_pointer();
    assert_ne!(sp, 0);
    assert_eq!(sp % 8, 0);
    assert_eq!(Context::new().stack_pointer(), 0);
}

#[test]
fn context_holds_just_the_stack_pointer() {
    assert_eq!(core::mem::size_of::<Context>(), 8);
    assert_eq!(Context::default().stack_pointer(), 0);
}

#[test]
fn fresh_scheduler_can_spawn() {
    let sched = ThreadScheduler::new();
    assert!(sched.can_spawn());
}

#[test]
fn spawned_thread_ids_are_fresh_and_increasing() {
    let mut sched = ThreadScheduler::new();
    let mut counters = Scheduler::new();
    let a = sched.spawn(0x1000, &mut counters);
    let b = sched.spawn(0x2000, &mut counters);
    sched.exit_thread(&mut counters);
    let c = sched.spawn(0x3000, &mut counters);
    assert!(a.as_u64() >= 1);
    assert_ne!(a, ThreadId::bootstrap());
    assert!(b.as_u64() > a.as_u64());
    assert!(c.as_u64() > b.as_u64());
}
