use vstd::prelude::*;

verus! {

use vstd::bits::{low_bits_mask, lemma_u64_low_bits_mask_is_mod};
use vstd::arithmetic::div_mod::lemma_fundamental_div_mod;
use crate::scheduler::Scheduler;

/// Per-thread stack size in bytes.
pub const STACK_SIZE: usize = 16384;

/// Bytes that [`KernelThread::new`] reserves at the top of a fresh stack: the
/// entry address and six zeroed callee-saved register slots.
pub const INITIAL_FRAME_SIZE: u64 = 56;

/// Saved CPU state for a kernel thread: the stack pointer. The callee-saved
/// registers live on the thread's own stack.
#[derive(Clone, Copy)]
pub struct Context {
    rsp: u64,
}

impl Context {
    /// A context with a zero stack pointer.
    pub fn new() -> (r: Self)
        ensures
            r.rsp() == 0,
    {
        Context { rsp: 0 }
    }

    /// The saved stack pointer.
    pub closed spec fn rsp(self) -> u64 {
        self.rsp
    }

    /// The saved stack pointer.
    pub fn stack_pointer(&self) -> (r: u64)
        ensures
            r == self.rsp(),
    {
        self.rsp
    }
}

impl Default for Context {
    fn default() -> (r: Self)
        ensures
            r.rsp() == 0,
    {
        Context::new()
    }
}

/// Identifier of a kernel thread. Ids are unique among those taken from one
/// counter; a [`ThreadScheduler`] holds that counter, so a kernel that runs
/// one scheduler has ids unique across the whole system.
#[derive(Debug, Clone, Copy, PartialEq, Eq, Structural, PartialOrd, Ord, Hash)]
pub struct ThreadId(u64);

impl View for ThreadId {
    type V = u64;

    closed spec fn view(&self) -> u64 {
        self.0
    }
}

/// The raw id reserved for the bootstrap (initial) kernel control flow, which
/// has no [`KernelThread`] of its own.
pub const BOOTSTRAP_RAW_ID: u64 = 0;

impl ThreadId {
    /// Two ids are equal exactly when their raw values are.
    pub proof fn lemma_view_injective(a: ThreadId, b: ThreadId)
        ensures
            a == b <==> a@ == b@,
    {
    }

    /// The reserved id of the bootstrap kernel control flow.
    pub fn bootstrap() -> (r: ThreadId)
        ensures
            r@ == BOOTSTRAP_RAW_ID,
    {
        ThreadId(0)
    }

    /// Takes the next id from the counter `next` and advances it; a counter
    /// that starts at 1 never hands out the bootstrap id.
    pub fn new(next: &mut u64) -> (r: ThreadId)
        requires
            *old(next) < u64::MAX,
        ensures
            r@ == *old(next),
            *final(next) == *old(next) + 1,
    {
        let id = ThreadId(*next);
        *next = *next + 1;
        id
    }

    /// Ids taken one after another from a counter that started at 1 or above
    /// differ, increase, and are never the bootstrap id: `a` taken when the
    /// counter was `start`, and `b` taken next.
    pub proof fn lemma_successive_ids_fresh(start: u64, a: ThreadId, b: ThreadId)
        requires
            1 <= start < u64::MAX,
            a@ == start,
            b@ == start + 1,
        ensures
            a != b,
            a@ >= 1,
            b@ > a@,
            a@ != BOOTSTRAP_RAW_ID,
            b@ != BOOTSTRAP_RAW_ID,
    {
    }

    /// The raw value of this id.
    pub fn as_u64(self) -> (r: u64)
        ensures
            r == self@,
    {
        self.0
    }
}

/// Run state of a kernel thread.
#[derive(Debug, Clone, Copy, PartialEq, Eq, Structural)]
pub enum ThreadState {
    Ready,
    Running,
    Finished,
}

/// Byte `k` (from the least significant) of `value`.
pub open spec fn le_byte(value: u64, k: int) -> u8 {
    ((value >> (8 * k) as u64) & 0xff) as u8
}

/// `addr` rounded down to a multiple of 16.
pub open spec fn align_down_16(addr: u64) -> u64 {
    (addr - addr % 16) as u64
}

/// Where the initial frame of a stack whose buffer starts at `base` begins:
/// the stack pointer a fresh thread is switched in with.
pub open spec fn initial_rsp(base: u64) -> u64 {
    (align_down_16((base + STACK_SIZE) as u64) - INITIAL_FRAME_SIZE) as u64
}

/// The bytes of a fresh thread stack whose buffer starts at `base`: zero but
/// for the little-endian `entry` address at the top of the initial frame.
pub open spec fn initial_stack(base: u64, entry: u64) -> Seq<u8> {
    let slot = initial_rsp(base) + 48 - base;
    Seq::new(STACK_SIZE as nat, |i: int| if slot <= i < slot + 8 { le_byte(entry, i - slot) } else { 0u8 })
}

/// The address of the first byte of `v`'s buffer.
///
/// Calls `Vec::as_ptr`. The address comes from the allocator, so nothing is
/// stated of its value; what is stated is that the buffer does not wrap the
/// address space, which Rust guarantees of every allocation.
#[verifier::external_body]
fn buffer_address(v: &Vec<u8>) -> (r: u64)
    ensures
        r + v@.len() <= u64::MAX,
{
    v.as_ptr() as u64
}

/// Clearing the low four bits rounds down to a multiple of 16.
proof fn lemma_clear_low_nibble(x: u64)
    ensures
        x & !0xFu64 == align_down_16(x),
{
    vstd::arithmetic::power2::lemma2_to64();
    lemma_u64_low_bits_mask_is_mod(x, 4);
    assert(low_bits_mask(4) == 15);
    let m = 15u64;
    assert(x & !m == x - (x & m)) by (bit_vector);
}

/// A kernel thread: an owned stack and the saved register state that switches
/// into it.
pub struct KernelThread {
    id: ThreadId,
    state: ThreadState,
    context: Context,
    stack_base: u64,
    stack: Vec<u8>,
}

/// What the contracts of a [`KernelThread`] speak of.
pub struct ThreadView {
    pub id: ThreadId,
    pub state: ThreadState,
    pub rsp: u64,
    pub stack_base: u64,
    pub stack: Seq<u8>,
}

impl View for KernelThread {
    type V = ThreadView;

    closed spec fn view(&self) -> ThreadView {
        ThreadView {
            id: self.id,
            state: self.state,
            rsp: self.context.rsp,
            stack_base: self.stack_base,
            stack: self.stack@,
        }
    }
}

impl KernelThread {
    /// Builds a ready-to-run thread with id `id` that starts at the code
    /// address `entry`: a fresh stack whose top holds `entry` as the return
    /// address and six zeroed register slots below it, and a context that
    /// points at them.
    pub fn new(id: ThreadId, entry: u64) -> (r: Self)
        ensures
            r@.id == id,
            r@.state == ThreadState::Ready,
            r@.rsp == initial_rsp(r@.stack_base),
            r@.stack == initial_stack(r@.stack_base, entry),
            r@.stack_base + STACK_SIZE <= u64::MAX,
            r@.stack_base < r@.rsp <= r@.stack_base + STACK_SIZE,
            r@.rsp % 8 == 0,
            r@.rsp + 56 <= r@.stack_base + STACK_SIZE,
            forall|i: int|
                r@.rsp + 48 - r@.stack_base <= i < r@.rsp + 56 - r@.stack_base ==> #[trigger] r@.stack[i]
                    == ((entry >> ((8 * (i - (r@.rsp + 48 - r@.stack_base))) as u64)) & 0xff) as u8,
    {
        let mut stack: Vec<u8> = vec![0u8; STACK_SIZE];
        let base = buffer_address(&stack);
        let top = base + STACK_SIZE as u64;
        proof {
            lemma_clear_low_nibble(top);
        }
        let aligned = top & !0xFu64;
        let slot = aligned - 8 - base;
        let sp = aligned - INITIAL_FRAME_SIZE;
        let ghost zeros = stack@;
        assert forall|i: int| 0 <= i < STACK_SIZE implies zeros[i] == 0u8 by {
            assert(vstd::pervasive::cloned(0u8, zeros[i]));
        }
        let mut k: u64 = 0;
        while k < 8
            invariant
                k <= 8,
                slot + 8 <= STACK_SIZE,
                stack@.len() == STACK_SIZE,
                forall|i: int| 0 <= i < STACK_SIZE ==> stack@[i] == if slot <= i < slot + k {
                    le_byte(entry, i - slot)
                } else {
                    0u8
                },
            decreases 8 - k,
        {
            let byte = ((entry >> (8 * k)) & 0xff) as u8;
            stack[(slot + k) as usize] = byte;
            k = k + 1;
        }
        assert(stack@ =~= initial_stack(base, entry));
        KernelThread {
            id,
            state: ThreadState::Ready,
            context: Context { rsp: sp },
            stack_base: base,
            stack,
        }
    }

    /// This thread's id.
    pub fn id(&self) -> (r: ThreadId)
        ensures
            r == self@.id,
    {
        self.id
    }

    /// This thread's run state.
    pub fn state(&self) -> (r: ThreadState)
        ensures
            r == self@.state,
    {
        self.state
    }

    /// The saved state that switches into this thread, to be updated in place.
    pub fn context_mut(&mut self) -> (r: &mut Context)
        ensures
            r.rsp() == old(self)@.rsp,
            final(self)@ == (ThreadView { rsp: final(r).rsp(), ..old(self)@ }),
    {
        &mut self.context
    }

    /// The saved stack pointer of this thread.
    pub fn stack_pointer(&self) -> (r: u64)
        ensures
            r == self@.rsp,
    {
        self.context.rsp
    }

    /// The address of the lowest byte of this thread's stack.
    pub fn stack_base(&self) -> (r: u64)
        ensures
            r == self@.stack_base,
    {
        self.stack_base
    }
}

/// The threads of a scheduler as its contracts see them.
pub open spec fn thread_views(threads: Seq<Box<KernelThread>>) -> Seq<ThreadView> {
    threads.map_values(|t: Box<KernelThread>| (*t)@)
}

/// Replacing one thread replaces its view.
pub broadcast proof fn lemma_thread_views_update(s: Seq<Box<KernelThread>>, i: int, x: Box<KernelThread>)
    requires
        0 <= i < s.len(),
    ensures
        #[trigger] thread_views(s.update(i, x)) == thread_views(s).update(i, (*x)@),
{
    assert(thread_views(s.update(i, x)) =~= thread_views(s).update(i, (*x)@));
}

/// Some thread in `threads` has id `id`.
pub open spec fn has_thread(threads: Seq<ThreadView>, id: ThreadId) -> bool {
    exists|i: int| 0 <= i < threads.len() && threads[i].id == id
}

/// The position of the thread with id `id` in `threads`.
pub open spec fn index_of(threads: Seq<ThreadView>, id: ThreadId) -> int {
    choose|i: int| 0 <= i < threads.len() && threads[i].id == id
}

/// `threads` without the thread whose id is `id` (unchanged if there is none).
pub open spec fn without_thread(threads: Seq<ThreadView>, id: ThreadId) -> Seq<ThreadView> {
    if has_thread(threads, id) {
        threads.remove(index_of(threads, id))
    } else {
        threads
    }
}

/// No two threads share an id.
pub open spec fn unique_ids(threads: Seq<ThreadView>) -> bool {
    forall|i: int, j: int| 0 <= i < j < threads.len() ==> threads[i].id != threads[j].id
}

/// `t` with its run state set to `state`.
pub open spec fn with_state(t: ThreadView, state: ThreadState) -> ThreadView {
    ThreadView { state, ..t }
}

/// `t` after a switch from `prev` to `next`: `next` runs, `prev` is ready again.
pub open spec fn after_switch(t: ThreadView, prev: ThreadId, next: ThreadId) -> ThreadView {
    if t.id == next {
        with_state(t, ThreadState::Running)
    } else if t.id == prev {
        with_state(t, ThreadState::Ready)
    } else {
        t
    }
}

/// A switch that the scheduler decided on: save the running state into the
/// context of `prev`, then resume from the context of `next`.
#[derive(Debug, Clone, Copy, PartialEq, Eq, Structural)]
pub struct Switch {
    pub prev: ThreadId,
    pub next: ThreadId,
}

/// What the contracts of a [`ThreadScheduler`] speak of.
pub struct SchedState {
    pub threads: Seq<ThreadView>,
    pub ready: Seq<ThreadId>,
    pub current: ThreadId,
    pub bootstrap_rsp: u64,
    pub next_id: u64,
}

impl SchedState {
    /// The scheduler's bookkeeping is consistent: thread ids are unique, fresh
    /// ids lie ahead of them, every thread is either running or queued exactly
    /// once, and only the running thread is marked running.
    pub open spec fn wf(self) -> bool {
        &&& self.next_id >= 1
        &&& unique_ids(self.threads)
        &&& forall|i: int|
            0 <= i < self.threads.len() ==> 0 < #[trigger] self.threads[i].id@ < self.next_id
        &&& self.ready.no_duplicates()
        &&& forall|k: int|
            0 <= k < self.ready.len() ==> (#[trigger] self.ready[k])@ == BOOTSTRAP_RAW_ID
                || has_thread(self.threads, self.ready[k])
        &&& self.current@ == BOOTSTRAP_RAW_ID || has_thread(self.threads, self.current)
        &&& !self.ready.contains(self.current)
        &&& forall|i: int|
            0 <= i < self.threads.len() ==> #[trigger] self.threads[i].id == self.current
                || self.ready.contains(self.threads[i].id)
        &&& forall|i: int|
            0 <= i < self.threads.len() ==> (#[trigger] self.threads[i]).state == if self.threads[i].id
                == self.current {
                ThreadState::Running
            } else {
                ThreadState::Ready
            }
    }

    /// The state after the running thread yields: it is queued at the back and
    /// the front of the ready queue runs; nothing changes when none is ready.
    pub open spec fn after_yield(self) -> SchedState {
        if self.ready.len() == 0 {
            self
        } else {
            let prev = self.current;
            let next = self.ready[0];
            SchedState {
                threads: self.threads.map_values(|t: ThreadView| after_switch(t, prev, next)),
                ready: self.ready.skip(1).push(prev),
                current: next,
                ..self
            }
        }
    }

    /// The state after the running thread exits: it is dropped (unless it is
    /// the bootstrap control flow) and the front of the ready queue runs.
    pub open spec fn after_exit(self) -> SchedState {
        let next = self.ready[0];
        SchedState {
            threads: without_thread(self.threads, self.current).map_values(
                |t: ThreadView| resumed(t, next),
            ),
            ready: self.ready.skip(1),
            current: next,
            ..self
        }
    }
}

/// Switching from the running thread to the front of the ready queue keeps the
/// scheduler's bookkeeping consistent.
proof fn lemma_switch_keeps_wf(v0: SchedState, v: SchedState)
    requires
        v0.wf(),
        v0.ready.len() > 0,
        v == (SchedState {
            threads: v0.threads.map_values(|t: ThreadView| after_switch(t, v0.current, v0.ready[0])),
            ready: v0.ready.skip(1).push(v0.current),
            current: v0.ready[0],
            ..v0
        }),
    ensures
        v.wf(),
{
    let prev = v0.current;
    let next = v0.ready[0];
    let rest = v0.ready.skip(1);
    assert forall|k: int| 0 <= k < rest.len() implies rest[k] != next && rest[k] != prev by {
        assert(rest[k] == v0.ready[k + 1]);
    }
    assert(!rest.contains(next));
    assert(!rest.contains(prev));
    assert(prev != next);
    assert forall|i: int| 0 <= i < v.threads.len() implies v.threads[i].id == v0.threads[i].id by {}
    assert(unique_ids(v.threads));
    assert(forall|i: int| 0 <= i < v.threads.len() ==> 0 < #[trigger] v.threads[i].id@ < v.next_id);
    assert(v.ready.no_duplicates()) by {
        assert forall|a: int, b: int| 0 <= a < b < v.ready.len() implies v.ready[a] != v.ready[b] by {
            if b == rest.len() {
                assert(v.ready[a] == rest[a]);
            } else {
                assert(v.ready[a] == v0.ready[a + 1]);
                assert(v.ready[b] == v0.ready[b + 1]);
            }
        }
    }
    assert forall|id: ThreadId| has_thread(v0.threads, id) implies has_thread(v.threads, id) by {
        let i = index_of(v0.threads, id);
        assert(v.threads[i].id == id);
    }
    assert forall|k: int| 0 <= k < v.ready.len() implies (#[trigger] v.ready[k])@ == BOOTSTRAP_RAW_ID
        || has_thread(v.threads, v.ready[k]) by {
        if k < rest.len() {
            assert(v.ready[k] == v0.ready[k + 1]);
        } else {
            assert(v.ready[k] == prev);
        }
    }
    assert(v.current@ == BOOTSTRAP_RAW_ID || has_thread(v.threads, v.current));
    assert(!v.ready.contains(v.current)) by {
        assert forall|k: int| 0 <= k < v.ready.len() implies v.ready[k] != next by {
            if k < rest.len() {
            } else {
                assert(v.ready[k] == prev);
            }
        }
    }
    assert forall|i: int| 0 <= i < v.threads.len() implies #[trigger] v.threads[i].id == v.current
        || v.ready.contains(v.threads[i].id) by {
        let id = v.threads[i].id;
        if id == prev {
            assert(v.ready[rest.len() as int] == prev);
        } else if id != next {
            let k = choose|k: int| 0 <= k < v0.ready.len() && v0.ready[k] == id;
            assert(k != 0);
            assert(v.ready[k - 1] == v0.ready[k]);
        }
    }
}

/// `t` marked running if it is the thread `next`.
pub open spec fn resumed(t: ThreadView, next: ThreadId) -> ThreadView {
    if t.id == next {
        with_state(t, ThreadState::Running)
    } else {
        t
    }
}

/// Where `without_thread(threads, id)` cut `threads`: the position of the
/// thread `id`, or the length when there is none.
pub open spec fn removed_pos(threads: Seq<ThreadView>, id: ThreadId) -> int {
    if has_thread(threads, id) {
        index_of(threads, id)
    } else {
        threads.len() as int
    }
}

/// Removing a thread by id keeps every other thread, in order, and nothing else.
proof fn lemma_without_thread(s: Seq<ThreadView>, id: ThreadId)
    requires
        unique_ids(s),
    ensures
        ({
            let k = without_thread(s, id);
            let p = removed_pos(s, id);
            &&& 0 <= p <= s.len()
            &&& k.len() == if has_thread(s, id) { s.len() - 1 } else { s.len() as int }
            &&& forall|i: int| 0 <= i < k.len() ==> #[trigger] k[i] == s[if i < p { i } else { i + 1 }]
            &&& forall|i: int| 0 <= i < k.len() ==> #[trigger] k[i].id != id
            &&& unique_ids(k)
            &&& forall|j: int| 0 <= j < s.len() && #[trigger] s[j].id != id ==> has_thread(k, s[j].id)
        }),
{
    let k = without_thread(s, id);
    let p = removed_pos(s, id);
    assert forall|i: int| 0 <= i < k.len() implies #[trigger] k[i] == s[if i < p { i } else { i + 1 }] by {}
    assert forall|i: int| 0 <= i < k.len() implies #[trigger] k[i].id != id by {
        let j = if i < p { i } else { i + 1 };
        if has_thread(s, id) {
            assert(j != p);
            assert(s[j].id != s[p].id);
        }
    }
    assert forall|a: int, b: int| 0 <= a < b < k.len() implies k[a].id != k[b].id by {
        let ja = if a < p { a } else { a + 1 };
        let jb = if b < p { b } else { b + 1 };
        assert(k[a] == s[ja]);
        assert(k[b] == s[jb]);
    }
    assert forall|j: int| 0 <= j < s.len() && #[trigger] s[j].id != id implies has_thread(k, s[j].id) by {
        if j < p {
            assert(k[j] == s[j]);
        } else {
            assert(j != p);
            assert(k[j - 1] == s[j]);
        }
    }
}

/// Dropping the running thread and resuming the front of the ready queue keeps
/// the scheduler's bookkeeping consistent.
proof fn lemma_exit_keeps_wf(v0: SchedState, v: SchedState)
    requires
        v0.wf(),
        v0.ready.len() > 0,
        v == (SchedState {
            threads: without_thread(v0.threads, v0.current).map_values(
                |t: ThreadView| resumed(t, v0.ready[0]),
            ),
            ready: v0.ready.skip(1),
            current: v0.ready[0],
            ..v0
        }),
    ensures
        v.wf(),
{
    let prev = v0.current;
    let next = v0.ready[0];
    let rest = v0.ready.skip(1);
    let kept = without_thread(v0.threads, prev);
    let p = removed_pos(v0.threads, prev);
    lemma_without_thread(v0.threads, prev);
    assert forall|k: int| 0 <= k < rest.len() implies rest[k] != next && rest[k] != prev by {
        assert(rest[k] == v0.ready[k + 1]);
    }
    assert forall|i: int| 0 <= i < v.threads.len() implies v.threads[i].id == kept[i].id by {}
    assert(unique_ids(v.threads)) by {
        assert forall|a: int, b: int| 0 <= a < b < v.threads.len() implies v.threads[a].id != v.threads[b].id by {
            assert(v.threads[a].id == kept[a].id);
            assert(v.threads[b].id == kept[b].id);
        }
    }
    assert forall|i: int| 0 <= i < v.threads.len() implies 0 < #[trigger] v.threads[i].id@ < v.next_id by {
        let j = if i < p { i } else { i + 1 };
        assert(kept[i] == v0.threads[j]);
    }
    assert forall|k: int| 0 <= k < v.ready.len() implies (#[trigger] v.ready[k])@ == BOOTSTRAP_RAW_ID
        || has_thread(v.threads, v.ready[k]) by {
        let id = v.ready[k];
        assert(id == v0.ready[k + 1]);
        if id@ != BOOTSTRAP_RAW_ID {
            let j = index_of(v0.threads, id);
            assert(has_thread(kept, v0.threads[j].id));
            let i = choose|i: int| 0 <= i < kept.len() && kept[i].id == id;
            assert(v.threads[i].id == id);
        }
    }
    if next@ != BOOTSTRAP_RAW_ID {
        let j = index_of(v0.threads, next);
        assert(has_thread(kept, v0.threads[j].id));
        let i = choose|i: int| 0 <= i < kept.len() && kept[i].id == next;
        assert(v.threads[i].id == next);
    }
    assert forall|i: int| 0 <= i < v.threads.len() implies #[trigger] v.threads[i].id == v.current
        || v.ready.contains(v.threads[i].id) by {
        let j = if i < p { i } else { i + 1 };
        assert(kept[i] == v0.threads[j]);
        let id = v.threads[i].id;
        if id != next {
            let k = choose|k: int| 0 <= k < v0.ready.len() && v0.ready[k] == id;
            assert(k != 0);
            assert(v.ready[k - 1] == v0.ready[k]);
        }
    }
    assert forall|i: int| 0 <= i < v.threads.len() implies (#[trigger] v.threads[i]).state == if v.threads[i].id
        == v.current {
        ThreadState::Running
    } else {
        ThreadState::Ready
    } by {
        let j = if i < p { i } else { i + 1 };
        assert(kept[i] == v0.threads[j]);
    }
}

/// Cooperative round-robin scheduler of kernel threads. The bootstrap kernel
/// control flow takes part as the thread with the reserved id. It holds the
/// counter that thread ids are taken from, so the kernel keeps exactly one
/// scheduler for its ids to be unique system-wide.
pub struct ThreadScheduler {
    threads: Vec<Box<KernelThread>>,
    ready: std::collections::VecDeque<ThreadId>,
    current: ThreadId,
    bootstrap_context: Context,
    next_id: u64,
}

impl View for ThreadScheduler {
    type V = SchedState;

    closed spec fn view(&self) -> SchedState {
        SchedState {
            threads: thread_views(self.threads@),
            ready: self.ready@,
            current: self.current,
            bootstrap_rsp: self.bootstrap_context.rsp,
            next_id: self.next_id,
        }
    }
}

impl ThreadScheduler {
    /// A scheduler with no threads, running the bootstrap control flow.
    pub fn new() -> (r: Self)
        ensures
            r@.wf(),
            r@.threads.len() == 0,
            r@.ready.len() == 0,
            r@.current@ == BOOTSTRAP_RAW_ID,
            r@.bootstrap_rsp == 0,
            r@.next_id == 1,
    {
        let r = ThreadScheduler {
            threads: Vec::new(),
            ready: std::collections::VecDeque::new(),
            current: ThreadId(0),
            bootstrap_context: Context { rsp: 0 },
            next_id: 1,
        };
        assert(r@.threads =~= Seq::<ThreadView>::empty());
        r
    }

    /// Number of spawned threads that have not exited.
    pub fn thread_count(&self) -> (r: usize)
        ensures
            r == self@.threads.len(),
    {
        self.threads.len()
    }

    /// Number of threads waiting in the ready queue.
    pub fn ready_count(&self) -> (r: usize)
        ensures
            r == self@.ready.len(),
    {
        self.ready.len()
    }

    /// Whether a fresh thread id is left for [`ThreadScheduler::spawn`].
    pub fn can_spawn(&self) -> (r: bool)
        ensures
            r == (self@.next_id < u64::MAX),
    {
        self.next_id < u64::MAX
    }

    /// The id of the running thread.
    pub fn current(&self) -> (r: ThreadId)
        ensures
            r == self@.current,
    {
        self.current
    }

    /// The position of the thread with id `id`, if there is one.
    fn find(&self, id: ThreadId) -> (r: Option<usize>)
        requires
            unique_ids(self@.threads),
        ensures
            match r {
                Some(i) => {
                    &&& i < self@.threads.len()
                    &&& self@.threads[i as int].id == id
                    &&& i == index_of(self@.threads, id)
                },
                None => !has_thread(self@.threads, id),
            },
    {
        let mut i: usize = 0;
        while i < self.threads.len()
            invariant
                unique_ids(self@.threads),
                i <= self.threads@.len(),
                forall|j: int| 0 <= j < i ==> thread_views(self.threads@)[j].id != id,
            decreases self.threads@.len() - i,
        {
            if self.threads[i].id == id {
                proof {
                    let v = self@.threads;
                    assert(v[i as int].id == id);
                    let k = index_of(v, id);
                    assert(0 <= k < v.len() && v[k].id == id);
                    if k < i {
                        assert(v[k].id != v[i as int].id);
                    } else if k > i {
                        assert(v[i as int].id != v[k].id);
                    }
                }
                return Some(i);
            }
            i = i + 1;
        }
        None
    }

    /// Sets the run state of the thread at position `i`.
    fn set_state(&mut self, i: usize, state: ThreadState)
        requires
            i < old(self)@.threads.len(),
        ensures
            final(self)@ == (SchedState {
                threads: old(self)@.threads.update(i as int, with_state(old(self)@.threads[i as int], state)),
                ..old(self)@
            }),
    {
        self.threads[i].state = state;
        assert(final(self)@.threads =~= old(self)@.threads.update(
            i as int,
            with_state(old(self)@.threads[i as int], state),
        ));
    }

    /// Spawns a new kernel thread that starts at the code address `entry`,
    /// queues it at the back of the ready queue, counts it in `counters`, and
    /// returns its fresh id.
    pub fn spawn(&mut self, entry: u64, counters: &mut Scheduler) -> (r: ThreadId)
        requires
            old(self)@.wf(),
            old(self)@.next_id < u64::MAX,
        ensures
            final(counters)@ == old(counters)@.after_thread_spawned(),
            final(self)@.wf(),
            r@ == old(self)@.next_id,
            final(self)@.next_id == old(self)@.next_id + 1,
            final(self)@.ready == old(self)@.ready.push(r),
            final(self)@.current == old(self)@.current,
            final(self)@.bootstrap_rsp == old(self)@.bootstrap_rsp,
            final(self)@.threads.len() == old(self)@.threads.len() + 1,
            final(self)@.threads.drop_last() == old(self)@.threads,
            ({
                let t = final(self)@.threads.last();
                &&& t.id == r
                &&& t.state == ThreadState::Ready
                &&& t.rsp == initial_rsp(t.stack_base)
                &&& t.stack == initial_stack(t.stack_base, entry)
                &&& t.stack_base + STACK_SIZE <= u64::MAX
                &&& t.rsp + 56 <= t.stack_base + STACK_SIZE
                &&& forall|i: int|
                    t.rsp + 48 - t.stack_base <= i < t.rsp + 56 - t.stack_base ==> #[trigger] t.stack[i]
                        == ((entry >> ((8 * (i - (t.rsp + 48 - t.stack_base))) as u64)) & 0xff) as u8
            }),
    {
        let ghost old_view = self@;
        let id = ThreadId::new(&mut self.next_id);
        let thread = Box::new(KernelThread::new(id, entry));
        self.threads.push(thread);
        self.ready.push_back(id);
        counters.note_thread_spawned();
        proof {
            let v = self@;
            assert(v.threads.drop_last() =~= old_view.threads);
            assert forall|k: int| 0 <= k < old_view.ready.len() implies old_view.ready[k] != id by {
                if old_view.ready[k]@ != BOOTSTRAP_RAW_ID {
                    let j = index_of(old_view.threads, old_view.ready[k]);
                    assert(old_view.threads[j].id@ < old_view.next_id);
                }
            }
            assert(!old_view.ready.contains(id));
            assert forall|k: int| 0 <= k < v.ready.len() implies (#[trigger] v.ready[k])@ == BOOTSTRAP_RAW_ID
                || has_thread(v.threads, v.ready[k]) by {
                if k < old_view.ready.len() {
                    assert(v.ready[k] == old_view.ready[k]);
                    if old_view.ready[k]@ != BOOTSTRAP_RAW_ID {
                        let j = index_of(old_view.threads, old_view.ready[k]);
                        assert(v.threads[j] == old_view.threads[j]);
                    }
                } else {
                    assert(v.threads[old_view.threads.len() as int].id == id);
                }
            }
            if old_view.current@ != BOOTSTRAP_RAW_ID {
                let j = index_of(old_view.threads, old_view.current);
                assert(v.threads[j] == old_view.threads[j]);
            }
            assert(old_view.current != id);
            assert forall|i: int| 0 <= i < v.threads.len() implies #[trigger] v.threads[i].id == v.current
                || v.ready.contains(v.threads[i].id) by {
                if i < old_view.threads.len() {
                    assert(v.threads[i] == old_view.threads[i]);
                    if old_view.threads[i].id != old_view.current {
                        let k = choose|k: int| 0 <= k < old_view.ready.len() && old_view.ready[k] == old_view.threads[i].id;
                        assert(v.ready[k] == old_view.ready[k]);
                    }
                } else {
                    assert(v.ready[old_view.ready.len() as int] == id);
                }
            }
            assert forall|i: int, j: int| 0 <= i < j < v.threads.len() implies v.threads[i].id != v.threads[j].id by {
                if j == old_view.threads.len() {
                    assert(v.threads[i] == old_view.threads[i]);
                } else {
                    assert(v.threads[i] == old_view.threads[i]);
                    assert(v.threads[j] == old_view.threads[j]);
                }
            }
            assert forall|i: int| 0 <= i < v.threads.len() implies 0 < #[trigger] v.threads[i].id@ < v.next_id by {
                if i < old_view.threads.len() {
                    assert(v.threads[i] == old_view.threads[i]);
                }
            }
        }
        id
    }

    /// Voluntarily gives up the CPU to the thread at the front of the ready
    /// queue: the running thread (the bootstrap control flow included) is
    /// queued at the back and marked ready, the front thread is marked running.
    /// Returns the switch to perform, or `None` when no thread is ready, in
    /// which case nothing changes.
    pub fn yield_now(&mut self) -> (r: Option<Switch>)
        requires
            old(self)@.wf(),
        ensures
            final(self)@ == old(self)@.after_yield(),
            final(self)@.wf(),
            final(self)@.next_id == old(self)@.next_id,
            old(self)@.ready.len() == 0 ==> r is None,
            old(self)@.ready.len() > 0 ==> r == Some(
                Switch { prev: old(self)@.current, next: old(self)@.ready[0] },
            ),
    {
        let ghost v0 = self@;
        match self.ready.pop_front() {
            None => None,
            Some(next) => {
                let prev = self.current;
                self.current = next;
                if prev.0 != BOOTSTRAP_RAW_ID {
                    match self.find(prev) {
                        Some(i) => self.set_state(i, ThreadState::Ready),
                        None => {},
                    }
                }
                self.ready.push_back(prev);
                if next.0 != BOOTSTRAP_RAW_ID {
                    match self.find(next) {
                        Some(j) => self.set_state(j, ThreadState::Running),
                        None => {},
                    }
                }
                proof {
                    let v = self@;
                    let expect = v0.threads.map_values(|t: ThreadView| after_switch(t, prev, next));
                    assert(v0.ready[0] == next);
                    assert(!v0.ready.skip(1).contains(next)) by {
                        assert forall|k: int| 0 <= k < v0.ready.skip(1).len() implies v0.ready.skip(1)[k] != next by {
                            assert(v0.ready.skip(1)[k] == v0.ready[k + 1]);
                        }
                    }
                    assert(prev != next);
                    assert forall|i: int| 0 <= i < v.threads.len() implies v.threads[i] == expect[i] by {
                        if v0.threads[i].id == prev {
                        }
                    }
                    assert(v.threads =~= expect);
                    assert(v.ready =~= v0.ready.skip(1).push(prev));
                    lemma_switch_keeps_wf(v0, v);
                }
                Some(Switch { prev, next })
            },
        }
    }

    /// Ends the running thread: drops it (and its stack) unless it is the
    /// bootstrap control flow, counting its end in `counters`, and resumes the
    /// thread at the front of the ready queue, which is returned.
    pub fn exit_thread(&mut self, counters: &mut Scheduler) -> (r: ThreadId)
        requires
            old(self)@.wf(),
            old(self)@.ready.len() > 0,
        ensures
            final(counters)@ == if old(self)@.current@ == BOOTSTRAP_RAW_ID {
                old(counters)@
            } else {
                old(counters)@.after_thread_exited()
            },
            final(self)@ == old(self)@.after_exit(),
            final(self)@.wf(),
            final(self)@.next_id == old(self)@.next_id,
            final(self)@.bootstrap_rsp == old(self)@.bootstrap_rsp,
            final(self)@.current == old(self)@.ready[0],
            final(self)@.ready == old(self)@.ready.skip(1),
            r == old(self)@.ready[0],
    {
        let ghost v0 = self@;
        let prev = self.current;
        if prev.0 != BOOTSTRAP_RAW_ID {
            match self.find(prev) {
                Some(i) => {
                    self.threads.remove(i);
                    assert(self@.threads =~= without_thread(v0.threads, prev));
                },
                None => {},
            }
            counters.note_thread_exited();
        } else {
            assert(!has_thread(v0.threads, prev)) by {
                if has_thread(v0.threads, prev) {
                    let i = index_of(v0.threads, prev);
                    assert(v0.threads[i].id@ > 0);
                }
            }
        }
        let ghost v1 = self@;
        assert(v1.threads =~= without_thread(v0.threads, prev));
        let next = match self.ready.pop_front() {
            Some(id) => id,
            None => {
                assert(false);
                prev
            },
        };
        self.current = next;
        if next.0 != BOOTSTRAP_RAW_ID {
            match self.find(next) {
                Some(j) => self.set_state(j, ThreadState::Running),
                None => {},
            }
        }
        proof {
            let v = self@;
            let expect = without_thread(v0.threads, prev).map_values(|t: ThreadView| resumed(t, next));
            assert forall|i: int| 0 <= i < v.threads.len() implies v.threads[i] == expect[i] by {}
            assert(v.threads =~= expect);
            lemma_exit_keeps_wf(v0, v);
        }
        next
    }

    /// The saved state of the thread `id` (of the bootstrap control flow for
    /// the reserved id), to be read or written in place by a context switch.
    pub fn context_mut(&mut self, id: ThreadId) -> (r: &mut Context)
        requires
            old(self)@.wf(),
            id@ == BOOTSTRAP_RAW_ID || has_thread(old(self)@.threads, id),
        ensures
            id@ == BOOTSTRAP_RAW_ID ==> {
                &&& r.rsp() == old(self)@.bootstrap_rsp
                &&& final(self)@ == (SchedState { bootstrap_rsp: final(r).rsp(), ..old(self)@ })
            },
            id@ != BOOTSTRAP_RAW_ID ==> {
                let i = index_of(old(self)@.threads, id);
                &&& r.rsp() == old(self)@.threads[i].rsp
                &&& final(self)@ == (SchedState {
                    threads: old(self)@.threads.update(
                        i,
                        ThreadView { rsp: final(r).rsp(), ..old(self)@.threads[i] },
                    ),
                    ..old(self)@
                })
            },
    {
        broadcast use lemma_thread_views_update;

        if id.0 == BOOTSTRAP_RAW_ID {
            &mut self.bootstrap_context
        } else {
            match self.find(id) {
                Some(i) => self.threads[i].context_mut(),
                None => {
                    assert(false);
                    &mut self.bootstrap_context
                },
            }
        }
    }
}

/// The state after the running thread and its successors yield `n` times.
pub open spec fn yield_times(s: SchedState, n: nat) -> SchedState
    decreases n,
{
    if n == 0 {
        s
    } else {
        yield_times(s, (n - 1) as nat).after_yield()
    }
}

/// The running thread followed by the ready queue: the order in which threads
/// get the CPU.
pub open spec fn ring(s: SchedState) -> Seq<ThreadId> {
    seq![s.current] + s.ready
}

/// After `k` yields (fewer than there are threads taking turns) the `k`-th
/// thread of the ring runs, the ring is rotated by `k`, and each thread is
/// marked running exactly when it is the one that runs.
proof fn lemma_yield_rotates(s: SchedState, k: nat)
    requires
        s.wf(),
        s.ready.len() > 0,
        k < ring(s).len(),
    ensures
        ({
            let t = yield_times(s, k);
            let r = ring(s);
            &&& t.wf()
            &&& t.current == r[k as int]
            &&& t.ready == r.skip(k + 1 as int) + r.take(k as int)
            &&& t.bootstrap_rsp == s.bootstrap_rsp
            &&& t.next_id == s.next_id
            &&& t.threads.len() == s.threads.len()
            &&& forall|i: int| 0 <= i < s.threads.len() ==> #[trigger] t.threads[i] == with_state(
                s.threads[i],
                if s.threads[i].id == t.current { ThreadState::Running } else { ThreadState::Ready },
            )
        }),
    decreases k,
{
    let r = ring(s);
    if k == 0 {
        assert(r.skip(1) =~= s.ready);
        assert(r.skip(1) + r.take(0) =~= s.ready);
        assert forall|i: int| 0 <= i < s.threads.len() implies #[trigger] s.threads[i] == with_state(
            s.threads[i],
            if s.threads[i].id == s.current { ThreadState::Running } else { ThreadState::Ready },
        ) by {}
    } else {
        lemma_yield_rotates(s, (k - 1) as nat);
        let p = yield_times(s, (k - 1) as nat);
        assert(p.ready.len() == r.len() - 1);
        assert(p.ready[0] == r[k as int]);
        lemma_switch_keeps_wf(p, p.after_yield());
        let t = p.after_yield();
        assert(t.ready =~= r.skip(k + 1 as int) + r.take(k as int));
    }
}

/// Round robin: once every ready thread has had one turn, the thread that
/// yielded first runs again, with the ready queue and every thread as they were.
pub proof fn lemma_round_robin(s: SchedState)
    requires
        s.wf(),
    ensures
        yield_times(s, (s.ready.len() + 1) as nat) == s,
{
    let n = s.ready.len();
    if n == 0 {
        assert(yield_times(s, 1) == s);
    } else {
        let r = ring(s);
        lemma_yield_rotates(s, n as nat);
        let p = yield_times(s, n as nat);
        assert(p.ready =~= r.take(n as int));
        let t = p.after_yield();
        assert(t.current == s.current);
        assert(t.ready =~= s.ready);
        assert forall|i: int| 0 <= i < s.threads.len() implies t.threads[i] == s.threads[i] by {}
        assert(t.threads =~= s.threads);
    }
}

/// A thread that exits is gone: no thread with its id is left, it is not
/// queued, and there is one thread fewer (none fewer when the bootstrap control
/// flow exits, as it has no thread of its own).
pub proof fn lemma_exited_thread_gone(s: SchedState)
    requires
        s.wf(),
        s.ready.len() > 0,
    ensures
        !has_thread(s.after_exit().threads, s.current),
        !s.after_exit().ready.contains(s.current),
        s.after_exit().threads.len() == if s.current@ == BOOTSTRAP_RAW_ID {
            s.threads.len() as int
        } else {
            s.threads.len() - 1
        },
{
    lemma_without_thread(s.threads, s.current);
    let kept = without_thread(s.threads, s.current);
    let t = s.after_exit();
    assert forall|i: int| 0 <= i < t.threads.len() implies t.threads[i].id != s.current by {
        assert(t.threads[i].id == kept[i].id);
    }
    if s.current@ == BOOTSTRAP_RAW_ID {
        assert(!has_thread(s.threads, s.current)) by {
            if has_thread(s.threads, s.current) {
                let i = index_of(s.threads, s.current);
                assert(s.threads[i].id@ > 0);
            }
        }
    }
    assert forall|k: int| 0 <= k < t.ready.len() implies t.ready[k] != s.current by {
        assert(t.ready[k] == s.ready[k + 1]);
    }
}

/// Thread ids are fresh: the id that the next spawn hands out is not the
/// bootstrap id and is above the id of every thread, queued or running, so ids
/// handed out one after another from a well-formed scheduler are increasing
/// and never repeat.
pub proof fn lemma_thread_ids_fresh(s: SchedState)
    requires
        s.wf(),
    ensures
        s.next_id != BOOTSTRAP_RAW_ID,
        forall|i: int| 0 <= i < s.threads.len() ==> (#[trigger] s.threads[i]).id@ < s.next_id,
        forall|k: int| 0 <= k < s.ready.len() ==> (#[trigger] s.ready[k])@ < s.next_id,
        s.current@ < s.next_id,
{
    assert forall|k: int| 0 <= k < s.ready.len() implies (#[trigger] s.ready[k])@ < s.next_id by {
        if s.ready[k]@ != BOOTSTRAP_RAW_ID {
            let j = index_of(s.threads, s.ready[k]);
            assert(s.threads[j].id@ < s.next_id);
        }
    }
    if s.current@ != BOOTSTRAP_RAW_ID {
        let j = index_of(s.threads, s.current);
        assert(s.threads[j].id@ < s.next_id);
    }
}

/// Thread ids are never reused: an exit or a yield leaves the id counter as it
/// was, so the exited thread's id stays below the id the next spawn hands out,
/// as does every id handed out before.
pub proof fn lemma_ids_never_reused(s: SchedState)
    requires
        s.wf(),
    ensures
        s.after_yield().next_id == s.next_id,
        s.ready.len() > 0 ==> s.after_exit().next_id == s.next_id,
        s.current@ < s.next_id,
{
    lemma_thread_ids_fresh(s);
}

/// The return address in a fresh thread's initial frame, eight bytes at
/// `rsp + 48`, is `entry` in little-endian order: byte `k` is bits `8k..8k+8`
/// of `entry`, and the eight bytes read back as a little-endian `u64` give
/// `entry`, so the switch's final `ret` jumps to `entry`.
pub proof fn lemma_initial_return_address(base: u64, entry: u64)
    requires
        base + STACK_SIZE <= u64::MAX,
    ensures
        ({
            let st = initial_stack(base, entry);
            let off = initial_rsp(base) + 48 - base;
            &&& 0 <= off && off + 8 <= STACK_SIZE
            &&& forall|i: int|
                off <= i < off + 8 ==> #[trigger] st[i] == ((entry >> ((8 * (i - off)) as u64)) & 0xff) as u8
            &&& st[off] as int + st[off + 1] as int * 0x100 + st[off + 2] as int * 0x1_0000
                + st[off + 3] as int * 0x100_0000 + st[off + 4] as int * 0x1_0000_0000 + st[off + 5] as int
                * 0x100_0000_0000 + st[off + 6] as int * 0x1_0000_0000_0000 + st[off + 7] as int
                * 0x100_0000_0000_0000 == entry
        }),
{
    let st = initial_stack(base, entry);
    let off = initial_rsp(base) + 48 - base;
    lemma_initial_frame_alignment(base);
    assert forall|i: int| off <= i < off + 8 implies #[trigger] st[i] == ((entry >> ((8 * (i - off)) as u64))
        & 0xff) as u8 by {}
    let b0 = st[off];
    let b1 = st[off + 1];
    let b2 = st[off + 2];
    let b3 = st[off + 3];
    let b4 = st[off + 4];
    let b5 = st[off + 5];
    let b6 = st[off + 6];
    let b7 = st[off + 7];
    assert(b0 == ((entry >> 0u64) & 0xff) as u8);
    assert(b1 == ((entry >> 8u64) & 0xff) as u8);
    assert(b2 == ((entry >> 16u64) & 0xff) as u8);
    assert(b3 == ((entry >> 24u64) & 0xff) as u8);
    assert(b4 == ((entry >> 32u64) & 0xff) as u8);
    assert(b5 == ((entry >> 40u64) & 0xff) as u8);
    assert(b6 == ((entry >> 48u64) & 0xff) as u8);
    assert(b7 == ((entry >> 56u64) & 0xff) as u8);
    assert(b0 as int + b1 as int * 0x100 + b2 as int * 0x1_0000 + b3 as int * 0x100_0000 + b4 as int
        * 0x1_0000_0000 + b5 as int * 0x100_0000_0000 + b6 as int * 0x1_0000_0000_0000 + b7 as int
        * 0x100_0000_0000_0000 == entry) by (bit_vector)
        requires
            b0 == ((entry >> 0u64) & 0xff) as u8,
            b1 == ((entry >> 8u64) & 0xff) as u8,
            b2 == ((entry >> 16u64) & 0xff) as u8,
            b3 == ((entry >> 24u64) & 0xff) as u8,
            b4 == ((entry >> 32u64) & 0xff) as u8,
            b5 == ((entry >> 40u64) & 0xff) as u8,
            b6 == ((entry >> 48u64) & 0xff) as u8,
            b7 == ((entry >> 56u64) & 0xff) as u8,
    ;
}

/// A fresh thread's frame is laid out for the switch into it: popping the six
/// register slots and returning to `entry` leaves the stack pointer 16-byte
/// aligned, as the calling convention asks at a function's entry, and the whole
/// frame lies inside the stack buffer.
pub proof fn lemma_initial_frame_alignment(base: u64)
    requires
        base + STACK_SIZE <= u64::MAX,
    ensures
        (initial_rsp(base) + INITIAL_FRAME_SIZE) % 16 == 0,
        base < initial_rsp(base),
        initial_rsp(base) + INITIAL_FRAME_SIZE <= base + STACK_SIZE,
{
    let top = (base + STACK_SIZE) as u64;
    lemma_fundamental_div_mod(top as int, 16);
    assert(align_down_16(top) == 16 * (top / 16)) by (nonlinear_arith)
        requires
            top == 16 * (top / 16) + top % 16,
            align_down_16(top) == top - top % 16,
    ;
    vstd::arithmetic::div_mod::lemma_mod_multiples_basic((top / 16) as int, 16);
}

} // verus!
