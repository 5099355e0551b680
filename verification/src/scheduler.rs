use vstd::prelude::*;

verus! {

/// How often (in ticks) a heartbeat with the current liveness counts is due.
pub const TICK_LOG_INTERVAL: u64 = 200;

/// `x + 1`, wrapping to zero past the largest value.
pub open spec fn inc_u64(x: u64) -> u64 {
    if x == u64::MAX { 0 } else { (x + 1) as u64 }
}

/// `x + 1`, wrapping to zero past the largest value.
pub open spec fn inc_usize(x: usize) -> usize {
    if x == usize::MAX { 0 } else { (x + 1) as usize }
}

/// `x - 1`, wrapping to the largest value below zero.
pub open spec fn dec_usize(x: usize) -> usize {
    if x == 0 { usize::MAX } else { (x - 1) as usize }
}

/// The counters of a [`Scheduler`].
pub struct Counters {
    pub tick_count: u64,
    pub threads_alive: usize,
    pub threads_spawned: u64,
    pub tasks_alive: usize,
    pub tasks_spawned: u64,
    pub tasks_completed: u64,
    pub processes_alive: usize,
    pub processes_spawned: u64,
}

impl Counters {
    /// All counters at zero.
    pub open spec fn zero() -> Counters {
        Counters {
            tick_count: 0,
            threads_alive: 0,
            threads_spawned: 0,
            tasks_alive: 0,
            tasks_spawned: 0,
            tasks_completed: 0,
            processes_alive: 0,
            processes_spawned: 0,
        }
    }

    /// The counters after one timer tick.
    pub open spec fn after_tick(self) -> Counters {
        Counters { tick_count: (self.tick_count + 1) as u64, ..self }
    }

    /// The counters after a kernel thread is spawned.
    pub open spec fn after_thread_spawned(self) -> Counters {
        Counters {
            threads_alive: inc_usize(self.threads_alive),
            threads_spawned: inc_u64(self.threads_spawned),
            ..self
        }
    }

    /// The counters after a kernel thread exits.
    pub open spec fn after_thread_exited(self) -> Counters {
        Counters { threads_alive: dec_usize(self.threads_alive), ..self }
    }

    /// The counters after an async task is spawned.
    pub open spec fn after_task_spawned(self) -> Counters {
        Counters {
            tasks_alive: inc_usize(self.tasks_alive),
            tasks_spawned: inc_u64(self.tasks_spawned),
            ..self
        }
    }

    /// The counters after an async task completes and is reaped.
    pub open spec fn after_task_completed(self) -> Counters {
        Counters {
            tasks_alive: dec_usize(self.tasks_alive),
            tasks_completed: inc_u64(self.tasks_completed),
            ..self
        }
    }

    /// The counters after a process is spawned.
    pub open spec fn after_process_spawned(self) -> Counters {
        Counters {
            processes_alive: inc_usize(self.processes_alive),
            processes_spawned: inc_u64(self.processes_spawned),
            ..self
        }
    }

    /// The counters after a process exits.
    pub open spec fn after_process_exited(self) -> Counters {
        Counters { processes_alive: dec_usize(self.processes_alive), ..self }
    }
}

/// Kernel-wide runtime observability: a monotonic timer-tick counter and
/// live and cumulative counts of kernel threads, async tasks and processes.
/// Counts wrap around as atomic counters do.
pub struct Scheduler {
    tick_count: u64,
    threads_alive: usize,
    threads_spawned: u64,
    tasks_alive: usize,
    tasks_spawned: u64,
    tasks_completed: u64,
    processes_alive: usize,
    processes_spawned: u64,
}

impl View for Scheduler {
    type V = Counters;

    closed spec fn view(&self) -> Counters {
        Counters {
            tick_count: self.tick_count,
            threads_alive: self.threads_alive,
            threads_spawned: self.threads_spawned,
            tasks_alive: self.tasks_alive,
            tasks_spawned: self.tasks_spawned,
            tasks_completed: self.tasks_completed,
            processes_alive: self.processes_alive,
            processes_spawned: self.processes_spawned,
        }
    }
}

impl Default for Scheduler {
    fn default() -> (r: Self)
        ensures
            r@ == Counters::zero(),
    {
        Scheduler::new()
    }
}

impl Scheduler {
    /// A scheduler with every counter at zero.
    pub fn new() -> (r: Self)
        ensures
            r@ == Counters::zero(),
    {
        Scheduler {
            tick_count: 0,
            threads_alive: 0,
            threads_spawned: 0,
            tasks_alive: 0,
            tasks_spawned: 0,
            tasks_completed: 0,
            processes_alive: 0,
            processes_spawned: 0,
        }
    }

    /// Counts one timer tick. Returns whether a heartbeat with the liveness
    /// counts is due, which is every [`TICK_LOG_INTERVAL`] ticks.
    pub fn tick(&mut self) -> (heartbeat: bool)
        requires
            old(self)@.tick_count < u64::MAX,
        ensures
            final(self)@ == old(self)@.after_tick(),
            heartbeat == (final(self)@.tick_count % TICK_LOG_INTERVAL == 0),
    {
        self.tick_count = self.tick_count + 1;
        self.tick_count % TICK_LOG_INTERVAL == 0
    }

    /// Number of timer ticks counted so far.
    pub fn ticks(&self) -> (r: u64)
        ensures
            r == self@.tick_count,
    {
        self.tick_count
    }

    /// Records that a kernel thread was just spawned.
    pub fn note_thread_spawned(&mut self)
        ensures
            final(self)@ == old(self)@.after_thread_spawned(),
    {
        self.threads_alive = self.threads_alive.wrapping_add(1);
        self.threads_spawned = self.threads_spawned.wrapping_add(1);
    }

    /// Records that a kernel thread has terminated.
    pub fn note_thread_exited(&mut self)
        ensures
            final(self)@ == old(self)@.after_thread_exited(),
    {
        self.threads_alive = self.threads_alive.wrapping_sub(1);
    }

    /// Number of kernel threads alive.
    pub fn threads_alive(&self) -> (r: usize)
        ensures
            r == self@.threads_alive,
    {
        self.threads_alive
    }

    /// Number of kernel threads ever spawned.
    pub fn threads_spawned(&self) -> (r: u64)
        ensures
            r == self@.threads_spawned,
    {
        self.threads_spawned
    }

    /// Records that an async task was just spawned.
    pub fn note_task_spawned(&mut self)
        ensures
            final(self)@ == old(self)@.after_task_spawned(),
    {
        self.tasks_alive = self.tasks_alive.wrapping_add(1);
        self.tasks_spawned = self.tasks_spawned.wrapping_add(1);
    }

    /// Records that an async task ran to completion and was reaped.
    pub fn note_task_completed(&mut self)
        ensures
            final(self)@ == old(self)@.after_task_completed(),
    {
        self.tasks_alive = self.tasks_alive.wrapping_sub(1);
        self.tasks_completed = self.tasks_completed.wrapping_add(1);
    }

    /// Number of async tasks alive.
    pub fn tasks_alive(&self) -> (r: usize)
        ensures
            r == self@.tasks_alive,
    {
        self.tasks_alive
    }

    /// Number of async tasks ever spawned.
    pub fn tasks_spawned(&self) -> (r: u64)
        ensures
            r == self@.tasks_spawned,
    {
        self.tasks_spawned
    }

    /// Number of async tasks that ran to completion.
    pub fn tasks_completed(&self) -> (r: u64)
        ensures
            r == self@.tasks_completed,
    {
        self.tasks_completed
    }

    /// Records that a process was just spawned.
    pub fn note_process_spawned(&mut self)
        ensures
            final(self)@ == old(self)@.after_process_spawned(),
    {
        self.processes_alive = self.processes_alive.wrapping_add(1);
        self.processes_spawned = self.processes_spawned.wrapping_add(1);
    }

    /// Records that a process has exited.
    pub fn note_process_exited(&mut self)
        ensures
            final(self)@ == old(self)@.after_process_exited(),
    {
        self.processes_alive = self.processes_alive.wrapping_sub(1);
    }

    /// Number of processes alive.
    pub fn processes_alive(&self) -> (r: usize)
        ensures
            r == self@.processes_alive,
    {
        self.processes_alive
    }

    /// Number of processes ever spawned.
    pub fn processes_spawned(&self) -> (r: u64)
        ensures
            r == self@.processes_spawned,
    {
        self.processes_spawned
    }
}

/// A kernel thread that is spawned and then exits leaves the live count as it
/// was and the cumulative count one higher.
pub proof fn lemma_thread_spawn_exit_balance(c: Counters)
    ensures
        c.after_thread_spawned().after_thread_exited().threads_alive == c.threads_alive,
        c.after_thread_spawned().after_thread_exited().threads_spawned == inc_u64(c.threads_spawned),
{
}

/// A task that is spawned and then completes leaves the live count as it was,
/// and counts once as spawned and once as completed.
pub proof fn lemma_task_spawn_complete_balance(c: Counters)
    ensures
        c.after_task_spawned().after_task_completed().tasks_alive == c.tasks_alive,
        c.after_task_spawned().after_task_completed().tasks_spawned == inc_u64(c.tasks_spawned),
        c.after_task_spawned().after_task_completed().tasks_completed == inc_u64(c.tasks_completed),
{
}

/// A process that is spawned and then exits leaves the live count as it was
/// and the cumulative count one higher.
pub proof fn lemma_process_spawn_exit_balance(c: Counters)
    ensures
        c.after_process_spawned().after_process_exited().processes_alive == c.processes_alive,
        c.after_process_spawned().after_process_exited().processes_spawned == inc_u64(
            c.processes_spawned,
        ),
{
}

/// Exits and completions never lower a cumulative count.
pub proof fn lemma_cumulative_counts_never_drop(c: Counters)
    ensures
        c.after_thread_exited().threads_spawned == c.threads_spawned,
        c.after_task_completed().tasks_spawned == c.tasks_spawned,
        c.after_process_exited().processes_spawned == c.processes_spawned,
{
}

/// The counters after `n` timer ticks.
pub open spec fn ticks_after(c: Counters, n: nat) -> Counters
    decreases n,
{
    if n == 0 {
        c
    } else {
        ticks_after(c, (n - 1) as nat).after_tick()
    }
}

/// `n` ticks add `n` to the tick count and change nothing else.
pub proof fn lemma_ticks_add_up(c: Counters, n: nat)
    requires
        c.tick_count + n <= u64::MAX,
    ensures
        ticks_after(c, n) == (Counters { tick_count: (c.tick_count + n) as u64, ..c }),
    decreases n,
{
    if n > 0 {
        lemma_ticks_add_up(c, (n - 1) as nat);
    }
}

/// One update of the counters, as the `note_*` and `tick` methods of a
/// [`Scheduler`] make them.
pub enum CounterEvent {
    Tick,
    ThreadSpawned,
    ThreadExited,
    TaskSpawned,
    TaskCompleted,
    ProcessSpawned,
    ProcessExited,
}

impl Counters {
    /// The counters after `e`.
    pub open spec fn step(self, e: CounterEvent) -> Counters {
        match e {
            CounterEvent::Tick => self.after_tick(),
            CounterEvent::ThreadSpawned => self.after_thread_spawned(),
            CounterEvent::ThreadExited => self.after_thread_exited(),
            CounterEvent::TaskSpawned => self.after_task_spawned(),
            CounterEvent::TaskCompleted => self.after_task_completed(),
            CounterEvent::ProcessSpawned => self.after_process_spawned(),
            CounterEvent::ProcessExited => self.after_process_exited(),
        }
    }
}

/// The counters of a new scheduler after the updates `evs`, in order.
pub open spec fn replay(evs: Seq<CounterEvent>) -> Counters
    decreases evs.len(),
{
    if evs.len() == 0 {
        Counters::zero()
    } else {
        replay(evs.drop_last()).step(evs.last())
    }
}

/// How many of `evs` are `e`.
pub open spec fn count(evs: Seq<CounterEvent>, e: CounterEvent) -> nat
    decreases evs.len(),
{
    if evs.len() == 0 {
        0
    } else {
        count(evs.drop_last(), e) + if evs.last() == e { 1nat } else { 0nat }
    }
}

/// No prefix of `evs` ends more threads, tasks or processes than it starts.
pub open spec fn ends_follow_starts(evs: Seq<CounterEvent>) -> bool {
    forall|k: int|
        0 <= k <= evs.len() ==> {
            &&& count(#[trigger] evs.take(k), CounterEvent::ThreadExited) <= count(
                evs.take(k),
                CounterEvent::ThreadSpawned,
            )
            &&& count(evs.take(k), CounterEvent::TaskCompleted) <= count(
                evs.take(k),
                CounterEvent::TaskSpawned,
            )
            &&& count(evs.take(k), CounterEvent::ProcessExited) <= count(
                evs.take(k),
                CounterEvent::ProcessSpawned,
            )
        }
}

/// A count of events never drops when more events follow.
proof fn lemma_count_prefix(evs: Seq<CounterEvent>, k: int, e: CounterEvent)
    requires
        0 <= k <= evs.len(),
    ensures
        count(evs.take(k), e) <= count(evs, e),
    decreases evs.len(),
{
    if k < evs.len() {
        assert(evs.drop_last().take(k) =~= evs.take(k));
        lemma_count_prefix(evs.drop_last(), k, e);
    } else {
        assert(evs.take(k) =~= evs);
    }
}

/// Counter balance: from a new scheduler, over any updates in which nothing
/// ends before it starts and no count of starts passes the largest `usize`,
/// every cumulative count is the number of its updates, each live count is
/// starts less ends, and so completed plus alive tasks are the spawned tasks.
pub proof fn lemma_counters_balance(evs: Seq<CounterEvent>)
    requires
        ends_follow_starts(evs),
        count(evs, CounterEvent::ThreadSpawned) <= usize::MAX,
        count(evs, CounterEvent::TaskSpawned) <= usize::MAX,
        count(evs, CounterEvent::ProcessSpawned) <= usize::MAX,
    ensures
        ({
            let c = replay(evs);
            let ts = count(evs, CounterEvent::ThreadSpawned);
            let ks = count(evs, CounterEvent::TaskSpawned);
            let kc = count(evs, CounterEvent::TaskCompleted);
            let ps = count(evs, CounterEvent::ProcessSpawned);
            &&& c.threads_spawned == ts
            &&& c.threads_alive == ts - count(evs, CounterEvent::ThreadExited)
            &&& c.tasks_spawned == ks
            &&& c.tasks_completed == kc
            &&& c.tasks_alive == ks - kc
            &&& c.tasks_completed + c.tasks_alive == c.tasks_spawned
            &&& c.processes_spawned == ps
            &&& c.processes_alive == ps - count(evs, CounterEvent::ProcessExited)
            &&& c.threads_alive <= c.threads_spawned
            &&& c.processes_alive <= c.processes_spawned
        }),
    decreases evs.len(),
{
    if evs.len() > 0 {
        let pre = evs.drop_last();
        assert forall|k: int| 0 <= k <= pre.len() implies #[trigger] pre.take(k) == evs.take(k) by {
            assert(pre.take(k) =~= evs.take(k));
        }
        assert(ends_follow_starts(pre)) by {
            assert forall|k: int| 0 <= k <= pre.len() implies {
                &&& count(#[trigger] pre.take(k), CounterEvent::ThreadExited) <= count(
                    pre.take(k),
                    CounterEvent::ThreadSpawned,
                )
                &&& count(pre.take(k), CounterEvent::TaskCompleted) <= count(
                    pre.take(k),
                    CounterEvent::TaskSpawned,
                )
                &&& count(pre.take(k), CounterEvent::ProcessExited) <= count(
                    pre.take(k),
                    CounterEvent::ProcessSpawned,
                )
            } by {
                assert(pre.take(k) == evs.take(k));
            }
        }
        lemma_counters_balance(pre);
        assert(evs.take(evs.len() as int) =~= evs);
    }
}

} // verus!
