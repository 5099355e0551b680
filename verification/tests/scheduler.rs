use apogee::scheduler::{Scheduler, TICK_LOG_INTERVAL};

#[test]
fn test_new_scheduler_is_zeroed() {
    let s = Scheduler::new();
    assert_eq!(s.ticks(), 0);
    assert_eq!(s.threads_alive(), 0);
    assert_eq!(s.threads_spawned(), 0);
    assert_eq!(s.tasks_alive(), 0);
    assert_eq!(s.tasks_spawned(), 0);
    assert_eq!(s.tasks_completed(), 0);
    assert_eq!(s.processes_alive(), 0);
    assert_eq!(s.processes_spawned(), 0);
}

#[test]
fn test_tick_increments_counter() {
    let mut s = Scheduler::new();
    s.tick();
    s.tick();
    s.tick();
    assert_eq!(s.ticks(), 3);
}

#[test]
fn heartbeat_every_interval() {
    let mut s = Scheduler::default();
    let mut beats = 0;
    for _ in 0..(2 * TICK_LOG_INTERVAL) {
        if s.tick() {
            beats += 1;
        }
    }
    assert_eq!(beats, 2);
    assert_eq!(s.ticks(), 400);
}

#[test]
fn test_thread_spawn_and_exit_balance() {
    let mut s = Scheduler::new();
    s.note_thread_spawned();
    s.note_thread_spawned();
    assert_eq!(s.threads_alive(), 2);
    assert_eq!(s.threads_spawned(), 2);
    s.note_thread_exited();
    assert_eq!(s.threads_alive(), 1);
    assert_eq!(s.threads_spawned(), 2);
}

#[test]
fn test_process_spawn_and_exit_balance() {
    let mut s = Scheduler::new();
    s.note_process_spawned();
    s.note_process_spawned();
    assert_eq!(s.processes_alive(), 2);
    assert_eq!(s.processes_spawned(), 2);
    s.note_process_exited();
    assert_eq!(s.processes_alive(), 1);
    assert_eq!(s.processes_spawned(), 2);
}

#[test]
fn test_task_spawn_and_complete_balance() {
    let mut s = Scheduler::new();
    s.note_task_spawned();
    s.note_task_spawned();
    assert_eq!(s.tasks_alive(), 2);
    assert_eq!(s.tasks_spawned(), 2);
    s.note_task_completed();
    assert_eq!(s.tasks_alive(), 1);
    assert_eq!(s.tasks_completed(), 1);
    assert_eq!(s.tasks_spawned(), 2);
}

#[test]
fn test_scheduler_observability_local_round_trip() {
    let mut scheduler = Scheduler::new();
    assert_eq!(scheduler.tasks_alive(), 0);
    assert_eq!(scheduler.tasks_spawned(), 0);
    scheduler.note_task_spawned();
    scheduler.note_task_spawned();
    assert_eq!(scheduler.tasks_alive(), 2);
    assert_eq!(scheduler.tasks_spawned(), 2);
    scheduler.note_task_completed();
    assert_eq!(scheduler.tasks_alive(), 1);
    assert_eq!(scheduler.tasks_completed(), 1);
}

#[test]
fn exit_without_spawn_wraps_like_an_atomic() {
    let mut s = Scheduler::new();
    s.note_thread_exited();
    assert_eq!(s.threads_alive(), usize::MAX);
    s.note_thread_spawned();
    assert_eq!(s.threads_alive(), 0);
}

#[test]
fn completed_plus_alive_tasks_equal_spawned_over_a_run() {
    let mut s = Scheduler::new();
    for _ in 0..5 {
        s.note_task_spawned();
    }
    s.note_task_completed();
    s.note_thread_spawned();
    s.note_task_completed();
    s.tick();
    s.note_task_spawned();
    s.note_thread_exited();
    s.note_task_completed();
    assert_eq!(s.tasks_spawned(), 6);
    assert_eq!(s.tasks_completed(), 3);
    assert_eq!(s.tasks_alive(), 3);
    assert_eq!(s.tasks_completed() + s.tasks_alive() as u64, s.tasks_spawned());
    assert!(s.threads_alive() as u64 <= s.threads_spawned());
    assert!(s.processes_alive() as u64 <= s.processes_spawned());
}
