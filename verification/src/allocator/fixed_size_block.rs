use vstd::prelude::*;

verus! {

use super::is_pow2;
use super::bump::BumpState;
use super::linkedlist::{
    chain,
    LinkedListAllocator,
    LinkedListState,
    ListNode,
    NodeEntry,
    LIST_NODE_ALIGN,
    LIST_NODE_SIZE,
};

/// Number of size classes of the slab-style allocator.
pub const NUM_BLOCK_SIZES: usize = 10;

/// The block sizes in bytes, ascending powers of two, so that a linear scan
/// picks the smallest block that fits.
pub open spec fn block_sizes() -> Seq<usize> {
    seq![8, 16, 32, 64, 128, 256, 512, 1024, 2048, 4096]
}

/// The block size of size class `index`.
pub fn block_size(index: usize) -> (r: usize)
    requires
        index < NUM_BLOCK_SIZES,
    ensures
        r == block_sizes()[index as int],
{
    match index {
        0 => 8,
        1 => 16,
        2 => 32,
        3 => 64,
        4 => 128,
        5 => 256,
        6 => 512,
        7 => 1024,
        8 => 2048,
        _ => 4096,
    }
}

/// The number of bytes a layout needs from a block: its size or its alignment,
/// whichever is larger.
pub open spec fn required(size: usize, align: usize) -> usize {
    if size >= align { size } else { align }
}

/// The first size class from `index` on whose blocks hold `need` bytes.
pub open spec fn first_fit_from(need: usize, index: int) -> Option<int>
    decreases NUM_BLOCK_SIZES - index,
{
    if index < 0 || index >= NUM_BLOCK_SIZES {
        None
    } else if need <= block_sizes()[index] {
        Some(index)
    } else {
        first_fit_from(need, index + 1)
    }
}

/// The class found from `index` on is the first there whose blocks hold `need` bytes.
pub proof fn lemma_first_fit(need: usize, index: int)
    requires
        0 <= index,
    ensures
        match first_fit_from(need, index) {
            Some(i) => {
                &&& index <= i < NUM_BLOCK_SIZES
                &&& need <= block_sizes()[i]
                &&& forall|j: int| index <= j < i ==> block_sizes()[j] < need
            },
            None => forall|j: int| index <= j < NUM_BLOCK_SIZES ==> block_sizes()[j] < need,
        },
    decreases NUM_BLOCK_SIZES - index,
{
    if index < NUM_BLOCK_SIZES && need > block_sizes()[index] {
        lemma_first_fit(need, index + 1);
    }
}

/// The smallest size class whose blocks hold `size` bytes aligned to `align`,
/// or `None` when the layout is larger than every block.
pub open spec fn spec_list_index(size: usize, align: usize) -> Option<int> {
    first_fit_from(required(size, align), 0)
}

/// Returns the size class of the smallest block that satisfies the layout of
/// `size` bytes aligned to `align`, or `None` if it is larger than every block.
fn list_index(size: usize, align: usize) -> (r: Option<usize>)
    ensures
        match r {
            Some(i) => spec_list_index(size, align) == Some(i as int),
            None => spec_list_index(size, align) is None,
        },
        r matches Some(i) ==> i < NUM_BLOCK_SIZES,
{
    proof {
        lemma_first_fit(required(size, align), 0);
    }
    let need = if size >= align { size } else { align };
    let mut index: usize = 0;
    while index < NUM_BLOCK_SIZES
        invariant
            index <= NUM_BLOCK_SIZES,
            need == required(size, align),
            first_fit_from(need, index as int) == spec_list_index(size, align),
        decreases NUM_BLOCK_SIZES - index,
    {
        if need <= block_size(index) {
            return Some(index);
        }
        index = index + 1;
    }
    None
}

/// Every block size is a power of two.
pub proof fn lemma_block_sizes_pow2(index: int)
    requires
        0 <= index < NUM_BLOCK_SIZES,
    ensures
        is_pow2(block_sizes()[index]),
        block_sizes()[index] == vstd::arithmetic::power2::pow2((index + 3) as nat),
{
    vstd::arithmetic::power2::lemma2_to64();
    assert(block_sizes()[index] == vstd::arithmetic::power2::pow2((index + 3) as nat));
}

/// The addresses of the nodes of a list.
pub open spec fn addrs(entries: Seq<NodeEntry>) -> Seq<usize> {
    entries.map_values(|e: NodeEntry| e.addr)
}

/// What the contracts of a [`FixedSizeBlockAllocator`] speak of: for each size
/// class the addresses of its cached free blocks, first the one handed out
/// next, and the allocator it falls back on.
pub struct FixedState {
    pub free: Seq<Seq<usize>>,
    pub fallback: LinkedListState,
}

impl FixedState {
    /// One free list per size class, and a consistent fallback allocator.
    pub open spec fn wf(self) -> bool {
        &&& self.free.len() == NUM_BLOCK_SIZES
        &&& self.fallback.bump.wf()
    }

    /// Every cached free block is aligned to its class's block size, as it is
    /// when it came from an allocation of that class.
    pub open spec fn cached_aligned(self) -> bool {
        forall|i: int, k: int|
            0 <= i < NUM_BLOCK_SIZES && 0 <= k < self.free[i].len() ==> #[trigger] self.free[i][k]
                % block_sizes()[i] == 0
    }

    /// The layout asked of the fallback allocator for `size` bytes aligned to
    /// `align`: a whole block for a size class, else the layout itself.
    pub open spec fn fallback_layout(size: usize, align: usize) -> (usize, usize) {
        match spec_list_index(size, align) {
            Some(i) => (block_sizes()[i], block_sizes()[i]),
            None => (size, align),
        }
    }

    /// The allocation is served from a cached free block.
    pub open spec fn takes_cached(self, size: usize, align: usize) -> bool {
        match spec_list_index(size, align) {
            Some(i) => self.free[i].len() > 0,
            None => false,
        }
    }

    /// An allocation can be attempted without overflowing the bookkeeping.
    pub open spec fn can_alloc(self, size: usize, align: usize) -> bool {
        &&& self.wf()
        &&& is_pow2(align)
        &&& !self.takes_cached(size, align) ==> self.fallback.bump.can_alloc(
            Self::fallback_layout(size, align).1,
        )
    }

    /// The address that an allocation of `size` bytes aligned to `align` returns.
    pub open spec fn alloc_result(self, size: usize, align: usize) -> Option<usize> {
        if self.takes_cached(size, align) {
            Some(self.free[spec_list_index(size, align)->0][0])
        } else {
            let (s, a) = Self::fallback_layout(size, align);
            self.fallback.bump.alloc_result(s, a)
        }
    }

    /// The state after an allocation of `size` bytes aligned to `align`.
    pub open spec fn after_alloc(self, size: usize, align: usize) -> FixedState {
        if self.takes_cached(size, align) {
            let i = spec_list_index(size, align)->0;
            FixedState { free: self.free.update(i, self.free[i].skip(1)), ..self }
        } else {
            let (s, a) = Self::fallback_layout(size, align);
            FixedState {
                fallback: LinkedListState { bump: self.fallback.bump.after_alloc(s, a), ..self.fallback },
                ..self
            }
        }
    }

    /// A freed block of this layout is cached on its size class: the class
    /// exists and its blocks can hold a list node.
    pub open spec fn caches_on_free(size: usize, align: usize) -> bool {
        match spec_list_index(size, align) {
            Some(i) => block_sizes()[i] >= LIST_NODE_SIZE && block_sizes()[i] >= LIST_NODE_ALIGN,
            None => false,
        }
    }

    /// Freeing a block of this layout cannot underflow the fallback's count.
    pub open spec fn can_dealloc(self, size: usize, align: usize) -> bool {
        &&& self.wf()
        &&& !Self::caches_on_free(size, align) ==> self.fallback.bump.allocations > 0
    }

    /// The state after the block at `ptr` of `size` bytes aligned to `align` is freed.
    pub open spec fn after_dealloc(self, ptr: usize, size: usize, align: usize) -> FixedState {
        if Self::caches_on_free(size, align) {
            let i = spec_list_index(size, align)->0;
            FixedState { free: self.free.update(i, seq![ptr] + self.free[i]), ..self }
        } else {
            FixedState {
                fallback: LinkedListState { bump: self.fallback.bump.after_dealloc(), ..self.fallback },
                ..self
            }
        }
    }
}

/// Slab-style allocator: one free list of equally sized blocks per size class,
/// and a [`LinkedListAllocator`] behind it for fresh blocks and large layouts.
pub struct FixedSizeBlockAllocator {
    list_heads: Vec<Option<Box<ListNode>>>,
    fallback_allocator: LinkedListAllocator,
}

impl View for FixedSizeBlockAllocator {
    type V = FixedState;

    closed spec fn view(&self) -> FixedState {
        FixedState {
            free: Seq::new(self.list_heads@.len(), |i: int| addrs(chain(self.list_heads@[i]))),
            fallback: self.fallback_allocator@,
        }
    }
}

impl FixedSizeBlockAllocator {
    /// An allocator with no cached blocks and an empty heap.
    pub fn empty() -> (r: Self)
        ensures
            r@.wf(),
            r@.cached_aligned(),
            forall|i: int| 0 <= i < NUM_BLOCK_SIZES ==> r@.free[i].len() == 0,
            r@.fallback.bump == (BumpState { heap_start: 0, heap_end: 0, next: 0, allocations: 0 }),
    {
        let mut list_heads: Vec<Option<Box<ListNode>>> = Vec::new();
        let mut i: usize = 0;
        while i < NUM_BLOCK_SIZES
            invariant
                i <= NUM_BLOCK_SIZES,
                list_heads@.len() == i,
                forall|j: int| 0 <= j < i ==> list_heads@[j] is None,
            decreases NUM_BLOCK_SIZES - i,
        {
            list_heads.push(None);
            i = i + 1;
        }
        FixedSizeBlockAllocator { list_heads, fallback_allocator: LinkedListAllocator::empty() }
    }

    /// Initializes the fallback allocator with the heap
    /// `[heap_start, heap_start + heap_size)`; the end saturates at `usize::MAX`.
    pub fn init(&mut self, heap_start: usize, heap_size: usize)
        requires
            old(self)@.wf(),
        ensures
            final(self)@.wf(),
            final(self)@.free == old(self)@.free,
            final(self)@.fallback.bump == (BumpState {
                heap_start,
                heap_end: if heap_start + heap_size <= usize::MAX {
                    (heap_start + heap_size) as usize
                } else {
                    usize::MAX
                },
                next: heap_start,
                allocations: 0,
            }),
            final(self)@.fallback.list == seq![NodeEntry { addr: heap_start, value: 0 }],
    {
        self.fallback_allocator.init(heap_start, heap_size);
    }

    /// Returns the index of the size class of the smallest block that satisfies
    /// the layout of `size` bytes aligned to `align`, or `None` if the layout is
    /// larger than every block.
    pub fn list_index(size: usize, align: usize) -> (r: Option<usize>)
        ensures
            match r {
                Some(i) => spec_list_index(size, align) == Some(i as int),
                None => spec_list_index(size, align) is None,
            },
            r matches Some(i) ==> i < NUM_BLOCK_SIZES,
    {
        list_index(size, align)
    }

    /// Whether an allocation of `size` bytes aligned to `align` can be made
    /// without overflowing the fallback allocator's bookkeeping: always when a
    /// cached block serves it, else when the fallback's bump pointer can be
    /// aligned and its allocation count raised.
    pub fn can_allocate(&self, size: usize, align: usize) -> (r: bool)
        requires
            self@.wf(),
        ensures
            r == (!self@.takes_cached(size, align) ==> {
                let a = FixedState::fallback_layout(size, align).1;
                &&& self@.fallback.bump.next + a - 1 <= usize::MAX
                &&& self@.fallback.bump.allocations < usize::MAX
            }),
    {
        let a = match Self::list_index(size, align) {
            Some(index) => {
                if self.list_heads[index].is_some() {
                    proof {
                        let i = index as int;
                        let h = self.list_heads@[i];
                        (*h->0).lemma_nonempty();
                        assert(self@.free[i].len() > 0);
                    }
                    return true;
                }
                proof {
                    assert(self@.free[index as int] =~= Seq::<usize>::empty());
                }
                block_size(index)
            },
            None => align,
        };
        let next = self.fallback_allocator.next();
        (a == 0 || next <= usize::MAX - (a - 1)) && self.fallback_allocator.allocations() < usize::MAX
    }

    /// Whether freeing a block of `size` bytes aligned to `align` is safe for
    /// the fallback allocator's count: always when the block is cached, else
    /// when the fallback has an allocation to release.
    pub fn can_deallocate(&self, size: usize, align: usize) -> (r: bool)
        requires
            self@.wf(),
        ensures
            r == self@.can_dealloc(size, align),
    {
        match Self::list_index(size, align) {
            Some(index) => {
                if block_size(index) >= LIST_NODE_SIZE && block_size(index) >= LIST_NODE_ALIGN {
                    return true;
                }
                self.fallback_allocator.allocations() > 0
            },
            None => self.fallback_allocator.allocations() > 0,
        }
    }

    /// Allocates straight from the fallback allocator.
    fn fallback_alloc(&mut self, size: usize, align: usize) -> (r: Option<usize>)
        requires
            old(self)@.fallback.bump.can_alloc(align),
        ensures
            r == old(self)@.fallback.bump.alloc_result(size, align),
            final(self)@ == (FixedState {
                fallback: LinkedListState {
                    bump: old(self)@.fallback.bump.after_alloc(size, align),
                    ..old(self)@.fallback
                },
                ..old(self)@
            }),
            final(self)@.fallback.bump.wf(),
    {
        let r = self.fallback_allocator.allocate(size, align);
        assert(final(self)@.free =~= old(self)@.free);
        r
    }

    /// Allocates `size` bytes aligned to `align`: a cached block of the
    /// layout's size class when there is one, else a fresh block of the class's
    /// exact size (or, for a layout larger than every block, the layout itself)
    /// from the fallback allocator. `None` is the null pointer.
    pub fn allocate(&mut self, size: usize, align: usize) -> (r: Option<usize>)
        requires
            old(self)@.can_alloc(size, align),
        ensures
            r == old(self)@.alloc_result(size, align),
            final(self)@ == old(self)@.after_alloc(size, align),
            final(self)@.wf(),
            old(self)@.cached_aligned() ==> final(self)@.cached_aligned(),
            old(self)@.cached_aligned() && r is Some ==> r->0 % align == 0,
    {
        proof {
            if old(self)@.cached_aligned() {
                lemma_cached_aligned_kept(old(self)@, 0, size, align);
                if old(self)@.alloc_result(size, align) is Some {
                    lemma_alloc_aligned(old(self)@, size, align);
                }
            }
        }
        match Self::list_index(size, align) {
            Some(index) => {
                let mut head: Option<Box<ListNode>> = None;
                std::mem::swap(&mut head, &mut self.list_heads[index]);
                match head {
                    Some(mut node) => {
                        let ghost cached = (*node)@;
                        proof {
                            (*node).lemma_nonempty();
                        }
                        assert(chain(Some(node)) == cached);
                        let next = node.take_next();
                        let addr = node.start_addr();
                        self.list_heads[index] = next;
                        proof {
                            let i = index as int;
                            assert(old(self)@.free[i] == addrs(cached));
                            assert(chain(next) == cached.skip(1));
                            assert(addrs(chain(next)) =~= old(self)@.free[i].skip(1));
                            assert(final(self)@.free =~= old(self)@.free.update(i, old(self)@.free[i].skip(1)));
                        }
                        Some(addr)
                    },
                    None => {
                        assert(self@ == old(self)@) by {
                            assert(self@.free =~= old(self)@.free);
                        }
                        let bs = block_size(index);
                        proof {
                            lemma_block_sizes_pow2(index as int);
                        }
                        self.fallback_alloc(bs, bs)
                    },
                }
            },
            None => self.fallback_alloc(size, align),
        }
    }

    /// Frees the block at `ptr` that was allocated for `size` bytes aligned to
    /// `align`: it is cached at the front of its size class's free list when the
    /// class's blocks can hold a list node, else handed back to the fallback.
    pub fn dealloc(&mut self, ptr: usize, size: usize, align: usize)
        requires
            old(self)@.can_dealloc(size, align),
        ensures
            final(self)@ == old(self)@.after_dealloc(ptr, size, align),
            final(self)@.wf(),
            old(self)@.cached_aligned() && (spec_list_index(size, align) matches Some(i) ==> ptr
                % block_sizes()[i] == 0) ==> final(self)@.cached_aligned(),
            match spec_list_index(size, align) {
                Some(i) => if block_sizes()[i] >= LIST_NODE_SIZE && block_sizes()[i] >= LIST_NODE_ALIGN {
                    final(self)@.free == old(self)@.free.update(i, seq![ptr] + old(self)@.free[i])
                } else {
                    final(self)@.free == old(self)@.free
                },
                None => final(self)@.free == old(self)@.free,
            },
    {
        proof {
            lemma_dealloc_caches_exactly(old(self)@, ptr, size, align);
            if old(self)@.cached_aligned() {
                lemma_cached_aligned_kept(old(self)@, ptr, size, align);
            }
        }
        match Self::list_index(size, align) {
            Some(index) => {
                if block_size(index) >= LIST_NODE_SIZE && block_size(index) >= LIST_NODE_ALIGN {
                    let mut head: Option<Box<ListNode>> = None;
                    std::mem::swap(&mut head, &mut self.list_heads[index]);
                    let mut node = ListNode::new(ptr, 0);
                    node.set_next(head);
                    self.list_heads[index] = Some(Box::new(node));
                    proof {
                        let i = index as int;
                        assert(addrs(chain(Some(Box::new(node)))) =~= seq![ptr] + old(self)@.free[i]);
                        assert(final(self)@.free =~= old(self)@.free.update(i, seq![ptr] + old(self)@.free[i]));
                    }
                } else {
                    self.fallback_allocator.dealloc();
                    assert(final(self)@.free =~= old(self)@.free);
                }
            },
            None => {
                self.fallback_allocator.dealloc();
                assert(final(self)@.free =~= old(self)@.free);
            },
        }
    }
}

/// The size class of a layout is the smallest one whose blocks hold the larger
/// of its size and alignment; a layout has none exactly when that exceeds the
/// largest block.
pub proof fn lemma_list_index_smallest_fit(size: usize, align: usize)
    ensures
        match spec_list_index(size, align) {
            Some(i) => {
                &&& 0 <= i < NUM_BLOCK_SIZES
                &&& required(size, align) <= block_sizes()[i]
                &&& forall|j: int| 0 <= j < i ==> block_sizes()[j] < required(size, align)
            },
            None => required(size, align) > block_sizes()[NUM_BLOCK_SIZES - 1],
        },
{
    lemma_first_fit(required(size, align), 0);
}

/// A block freed to a size class is the next one handed out for a layout of
/// that class, and taking it back restores the allocator's state.
pub proof fn lemma_free_then_alloc_reuses(s: FixedState, ptr: usize, size: usize, align: usize)
    requires
        s.wf(),
        FixedState::caches_on_free(size, align),
    ensures
        s.after_dealloc(ptr, size, align).alloc_result(size, align) == Some(ptr),
        s.after_dealloc(ptr, size, align).after_alloc(size, align) == s,
{
    lemma_first_fit(required(size, align), 0);
    let i = spec_list_index(size, align)->0;
    let t = s.after_dealloc(ptr, size, align);
    assert(t.free[i] == seq![ptr] + s.free[i]);
    assert(t.takes_cached(size, align));
    assert(t.free[i].skip(1) =~= s.free[i]);
    assert(t.free.update(i, t.free[i].skip(1)) =~= s.free);
}

/// A block that the fallback allocator hands out for a size class is aligned
/// to that class's block size.
pub proof fn lemma_fresh_block_aligned(s: FixedState, size: usize, align: usize)
    requires
        s.can_alloc(size, align),
        !s.takes_cached(size, align),
        spec_list_index(size, align) is Some,
        s.alloc_result(size, align) is Some,
    ensures
        s.alloc_result(size, align)->0 % block_sizes()[spec_list_index(size, align)->0] == 0,
{
    lemma_first_fit(required(size, align), 0);
    let i = spec_list_index(size, align)->0;
    lemma_block_sizes_pow2(i);
    super::bump::lemma_alloc_in_heap(s.fallback.bump, block_sizes()[i], block_sizes()[i]);
}

/// The block sizes strictly ascend, and some class has blocks that can hold a
/// list node, so freed blocks of that class can be cached.
pub proof fn lemma_block_sizes_ascending()
    ensures
        forall|i: int, j: int| 0 <= i < j < NUM_BLOCK_SIZES ==> block_sizes()[i] < block_sizes()[j],
        exists|i: int|
            0 <= i < NUM_BLOCK_SIZES && block_sizes()[i] >= LIST_NODE_SIZE && block_sizes()[i]
                >= LIST_NODE_ALIGN,
{
    assert(block_sizes()[1] >= LIST_NODE_SIZE);
}

/// Allocating or freeing a layout touches at most the free list of its own
/// size class: every other class's cached blocks stay as they were.
pub proof fn lemma_other_classes_untouched(
    s: FixedState,
    ptr: usize,
    size: usize,
    align: usize,
    other: int,
)
    requires
        s.wf(),
        0 <= other < NUM_BLOCK_SIZES,
        spec_list_index(size, align) != Some(other),
    ensures
        s.after_alloc(size, align).free[other] == s.free[other],
        s.after_dealloc(ptr, size, align).free[other] == s.free[other],
{
    lemma_first_fit(required(size, align), 0);
}

/// A multiple of a power of two is a multiple of every smaller power of two.
proof fn lemma_pow2_multiple(a: usize, b: usize, p: int)
    requires
        is_pow2(a),
        is_pow2(b),
        a <= b,
        p % (b as int) == 0,
    ensures
        p % (a as int) == 0,
{
    let n = choose|n: nat| n < usize::BITS && a as nat == vstd::arithmetic::power2::pow2(n);
    let m = choose|m: nat| m < usize::BITS && b as nat == vstd::arithmetic::power2::pow2(m);
    if n > m {
        vstd::arithmetic::power2::lemma_pow2_strictly_increases(m, n);
    }
    let d = (m - n) as nat;
    vstd::arithmetic::power2::lemma_pow2_adds(n, d);
    assert(n + d == m);
    let c = vstd::arithmetic::power2::pow2(d) as int;
    vstd::arithmetic::power2::lemma_pow2_pos(n);
    vstd::arithmetic::div_mod::lemma_fundamental_div_mod(p, b as int);
    assert(b as int == a as int * c);
    let q = p / (b as int);
    assert(p == (c * q) * (a as int)) by (nonlinear_arith)
        requires
            p == (b as int) * q + 0,
            b as int == a as int * c,
    ;
    vstd::arithmetic::div_mod::lemma_mod_multiples_basic(c * q, a as int);
}

/// Every allocation is aligned to the alignment asked for: a layout larger
/// than every block goes to the fallback with its own alignment, and a block of
/// a size class, fresh or cached, is aligned to the class's block size, which
/// is a power of two at least the layout's alignment.
pub proof fn lemma_alloc_aligned(s: FixedState, size: usize, align: usize)
    requires
        s.can_alloc(size, align),
        s.cached_aligned(),
        s.alloc_result(size, align) is Some,
    ensures
        s.alloc_result(size, align)->0 % align == 0,
{
    lemma_first_fit(required(size, align), 0);
    let p = s.alloc_result(size, align)->0;
    match spec_list_index(size, align) {
        Some(i) => {
            lemma_block_sizes_pow2(i);
            let b = block_sizes()[i];
            if s.takes_cached(size, align) {
                assert(p == s.free[i][0]);
                assert(p % b == 0);
            } else {
                super::bump::lemma_alloc_in_heap(s.fallback.bump, b, b);
            }
            lemma_pow2_multiple(align, b, p as int);
        },
        None => {
            super::bump::lemma_alloc_in_heap(s.fallback.bump, size, align);
        },
    }
}

/// Cached blocks stay aligned to their class: an allocation only takes blocks
/// away, and freeing a block aligned to its class's block size (as every block
/// the allocator hands out for that class is) keeps it so.
pub proof fn lemma_cached_aligned_kept(s: FixedState, ptr: usize, size: usize, align: usize)
    requires
        s.wf(),
        s.cached_aligned(),
    ensures
        s.after_alloc(size, align).cached_aligned(),
        (spec_list_index(size, align) matches Some(i) ==> ptr % block_sizes()[i] == 0) ==> s.after_dealloc(
            ptr,
            size,
            align,
        ).cached_aligned(),
{
    lemma_first_fit(required(size, align), 0);
    let t = s.after_alloc(size, align);
    assert forall|i: int, k: int| 0 <= i < NUM_BLOCK_SIZES && 0 <= k < t.free[i].len() implies #[trigger] t.free[i][k]
        % block_sizes()[i] == 0 by {
        if s.takes_cached(size, align) && i == spec_list_index(size, align)->0 {
            assert(t.free[i][k] == s.free[i][k + 1]);
        } else {
            assert(t.free[i] == s.free[i]);
        }
    }
    if spec_list_index(size, align) matches Some(j) ==> ptr % block_sizes()[j] == 0 {
        let u = s.after_dealloc(ptr, size, align);
        assert forall|i: int, k: int| 0 <= i < NUM_BLOCK_SIZES && 0 <= k < u.free[i].len() implies #[trigger] u.free[i][k]
            % block_sizes()[i] == 0 by {
            if FixedState::caches_on_free(size, align) && i == spec_list_index(size, align)->0 {
                if k > 0 {
                    assert(u.free[i][k] == s.free[i][k - 1]);
                }
            } else {
                assert(u.free[i] == s.free[i]);
            }
        }
    }
}

/// A freed block is cached on its size class exactly when the class exists and
/// its blocks are at least `LIST_NODE_SIZE` bytes and `LIST_NODE_ALIGN`
/// aligned, so that a list node fits in them; it then goes to the front of the
/// class's free list and the very next allocation of that layout returns it.
/// Any other freed block is handed back to the fallback allocator, which counts
/// one allocation fewer, and no free list changes.
pub proof fn lemma_dealloc_caches_exactly(s: FixedState, ptr: usize, size: usize, align: usize)
    requires
        s.wf(),
        s.can_dealloc(size, align),
    ensures
        ({
            let cached = match spec_list_index(size, align) {
                Some(i) => LIST_NODE_SIZE <= block_sizes()[i] && LIST_NODE_ALIGN <= block_sizes()[i],
                None => false,
            };
            let i = spec_list_index(size, align)->0;
            let t = s.after_dealloc(ptr, size, align);
            &&& cached ==> {
                &&& t.free == s.free.update(i, seq![ptr] + s.free[i])
                &&& t.fallback == s.fallback
                &&& t.alloc_result(size, align) == Some(ptr)
            }
            &&& !cached ==> {
                &&& t.free == s.free
                &&& t.fallback.bump.allocations == s.fallback.bump.allocations - 1
                &&& (t.fallback.bump.next == s.fallback.bump.next || s.fallback.bump.allocations == 1)
            }
        }),
{
    lemma_first_fit(required(size, align), 0);
    if FixedState::caches_on_free(size, align) {
        lemma_free_then_alloc_reuses(s, ptr, size, align);
    }
}

} // verus!
