use vstd::prelude::*;

verus! {

use super::{align_up, is_pow2, lemma_round_up_arith, spec_align_up};

/// Bump allocator: hands out memory linearly until the heap is exhausted.
/// Frees only when the allocation count returns to zero.
pub struct BumpAllocator {
    heap_start: usize,
    heap_end: usize,
    next: usize,
    allocations: usize,
}

/// The bookkeeping of a [`BumpAllocator`], as seen by its contracts.
pub struct BumpState {
    pub heap_start: usize,
    pub heap_end: usize,
    pub next: usize,
    pub allocations: usize,
}

impl View for BumpAllocator {
    type V = BumpState;

    closed spec fn view(&self) -> BumpState {
        BumpState {
            heap_start: self.heap_start,
            heap_end: self.heap_end,
            next: self.next,
            allocations: self.allocations,
        }
    }
}

impl BumpState {
    /// The bump pointer stays inside the heap.
    pub open spec fn wf(self) -> bool {
        self.heap_start <= self.next <= self.heap_end
    }

    /// Where an allocation of `align` would start.
    pub open spec fn alloc_start(self, align: usize) -> int {
        spec_align_up(self.next as int, align as int)
    }

    /// An allocation of `size` bytes aligned to `align` fits in the rest of the heap.
    pub open spec fn fits(self, size: usize, align: usize) -> bool {
        self.alloc_start(align) + size <= self.heap_end
    }

    /// An allocation can be attempted without overflowing the bookkeeping.
    pub open spec fn can_alloc(self, align: usize) -> bool {
        &&& self.wf()
        &&& is_pow2(align)
        &&& self.next + align - 1 <= usize::MAX
        &&& self.allocations < usize::MAX
    }

    /// The address an allocation of `size` bytes aligned to `align` returns.
    pub open spec fn alloc_result(self, size: usize, align: usize) -> Option<usize> {
        if self.fits(size, align) {
            Some(self.alloc_start(align) as usize)
        } else {
            None
        }
    }

    /// The bookkeeping after an allocation of `size` bytes aligned to `align`.
    pub open spec fn after_alloc(self, size: usize, align: usize) -> BumpState {
        if self.fits(size, align) {
            BumpState {
                next: (self.alloc_start(align) + size) as usize,
                allocations: (self.allocations + 1) as usize,
                ..self
            }
        } else {
            self
        }
    }

    /// The bookkeeping after one allocation is released.
    pub open spec fn after_dealloc(self) -> BumpState {
        let allocations = (self.allocations - 1) as usize;
        BumpState {
            allocations,
            next: if allocations == 0 { self.heap_start } else { self.next },
            ..self
        }
    }
}

impl BumpAllocator {
    /// Creates an empty bump allocator. Call [`init`] before using it.
    pub fn empty() -> (r: Self)
        ensures
            r@ == (BumpState { heap_start: 0, heap_end: 0, next: 0, allocations: 0 }),
            r@.wf(),
    {
        BumpAllocator { heap_start: 0, heap_end: 0, next: 0, allocations: 0 }
    }

    /// Initializes the allocator with the heap `[heap_start, heap_start + heap_size)`;
    /// the end saturates at `usize::MAX`.
    pub fn init(&mut self, heap_start: usize, heap_size: usize)
        ensures
            final(self)@ == (BumpState {
                heap_start,
                heap_end: if heap_start + heap_size <= usize::MAX {
                    (heap_start + heap_size) as usize
                } else {
                    usize::MAX
                },
                next: heap_start,
                allocations: 0,
            }),
            final(self)@.wf(),
    {
        self.heap_start = heap_start;
        self.heap_end = heap_start.saturating_add(heap_size);
        self.next = heap_start;
        self.allocations = 0;
    }

    /// Start of the managed heap.
    pub fn heap_start(&self) -> (r: usize)
        ensures
            r == self@.heap_start,
    {
        self.heap_start
    }

    /// One past the end of the managed heap.
    pub fn heap_end(&self) -> (r: usize)
        ensures
            r == self@.heap_end,
    {
        self.heap_end
    }

    /// Address at which the next allocation is attempted.
    pub fn next(&self) -> (r: usize)
        ensures
            r == self@.next,
    {
        self.next
    }

    /// Number of allocations not yet freed.
    pub fn allocations(&self) -> (r: usize)
        ensures
            r == self@.allocations,
    {
        self.allocations
    }

    /// Hands out `size` bytes aligned to `align` at the bump pointer, or `None`
    /// (the null pointer of the global allocator) when they do not fit.
    pub fn allocate(&mut self, size: usize, align: usize) -> (r: Option<usize>)
        requires
            old(self)@.can_alloc(align),
        ensures
            r == old(self)@.alloc_result(size, align),
            final(self)@ == old(self)@.after_alloc(size, align),
            final(self)@.wf(),
    {
        let alloc_start = align_up(self.next, align);
        let alloc_end = match alloc_start.checked_add(size) {
            Some(end) => end,
            None => return None,
        };
        if alloc_end > self.heap_end {
            None
        } else {
            self.next = alloc_end;
            self.allocations = self.allocations + 1;
            Some(alloc_start)
        }
    }

    /// Releases one allocation; when none remain the whole heap is reclaimed.
    pub fn dealloc(&mut self)
        requires
            old(self)@.wf(),
            old(self)@.allocations > 0,
        ensures
            final(self)@ == old(self)@.after_dealloc(),
            final(self)@.wf(),
    {
        self.allocations = self.allocations - 1;
        if self.allocations == 0 {
            self.next = self.heap_start;
        }
    }
}

/// An allocation that succeeds lies inside the heap, above the bump pointer,
/// and is aligned as asked.
pub proof fn lemma_alloc_in_heap(s: BumpState, size: usize, align: usize)
    requires
        s.can_alloc(align),
        s.alloc_result(size, align) is Some,
    ensures
        ({
            let a = s.alloc_result(size, align)->0;
            &&& s.heap_start <= s.next <= a
            &&& a + size <= s.heap_end
            &&& a % align == 0
        }),
{
    super::lemma_mask_is_round_down(0, align);
    lemma_round_up_arith(s.next as int, align as int);
}

/// Two allocations in a row never overlap: the second starts at or after the
/// end of the first.
pub proof fn lemma_allocations_disjoint(
    s: BumpState,
    size1: usize,
    align1: usize,
    size2: usize,
    align2: usize,
)
    requires
        s.can_alloc(align1),
        s.alloc_result(size1, align1) is Some,
        s.after_alloc(size1, align1).can_alloc(align2),
        s.after_alloc(size1, align1).alloc_result(size2, align2) is Some,
    ensures
        s.alloc_result(size1, align1)->0 + size1 <= s.after_alloc(size1, align1).alloc_result(
            size2,
            align2,
        )->0,
{
    let t = s.after_alloc(size1, align1);
    lemma_alloc_in_heap(s, size1, align1);
    super::lemma_mask_is_round_down(0, align1);
    lemma_round_up_arith(s.next as int, align1 as int);
    assert(t.next == s.alloc_start(align1) + size1);
    lemma_alloc_in_heap(t, size2, align2);
}

/// Once every allocation is released the bump pointer is back at the heap start.
pub proof fn lemma_release_all_resets(s: BumpState)
    requires
        s.wf(),
        s.allocations == 1,
    ensures
        s.after_dealloc().next == s.heap_start,
        s.after_dealloc().allocations == 0,
{
}

} // verus!
