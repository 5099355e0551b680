use vstd::prelude::*;

verus! {

use super::bump::{BumpAllocator, BumpState};

/// Size in bytes of a [`ListNode`] written into heap memory (a value and a link).
pub const LIST_NODE_SIZE: usize = 16;

/// Alignment in bytes that a [`ListNode`] needs in heap memory.
pub const LIST_NODE_ALIGN: usize = 8;

/// A node of a singly linked list whose nodes live inside heap blocks.
/// `addr` is the address of the block that holds the node.
pub struct ListNode {
    addr: usize,
    value: usize,
    next: Option<Box<ListNode>>,
}

/// One entry of a list: the address of its node and the value it holds.
pub struct NodeEntry {
    pub addr: usize,
    pub value: usize,
}

/// The entries of the list that starts at `node` (empty for no node).
pub open spec fn chain(node: Option<Box<ListNode>>) -> Seq<NodeEntry>
    decreases node,
{
    match node {
        None => Seq::empty(),
        Some(b) => (*b)@,
    }
}

impl View for ListNode {
    type V = Seq<NodeEntry>;

    /// The entries from this node to the end of its list.
    closed spec fn view(&self) -> Seq<NodeEntry>
        decreases self,
    {
        seq![NodeEntry { addr: self.addr, value: self.value }] + chain(self.next)
    }
}

impl ListNode {
    /// A list holds at least the node it starts at.
    pub proof fn lemma_nonempty(&self)
        ensures
            self@.len() >= 1,
    {
    }

    /// Creates an unlinked node holding `value`, to live at address `addr`.
    pub fn new(addr: usize, value: usize) -> (r: Self)
        ensures
            r@ == seq![NodeEntry { addr, value }],
    {
        let r = ListNode { addr, value, next: None };
        assert(r@ =~= seq![NodeEntry { addr, value }]);
        r
    }

    /// Address of the block that holds this node.
    pub fn start_addr(&self) -> (r: usize)
        ensures
            r == self@[0].addr,
    {
        self.addr
    }

    /// One past the last byte of this node.
    pub fn end_addr(&self) -> (r: usize)
        requires
            self@[0].addr + LIST_NODE_SIZE <= usize::MAX,
        ensures
            r == self@[0].addr + LIST_NODE_SIZE,
    {
        self.addr + LIST_NODE_SIZE
    }

    /// The value this node holds.
    pub fn get_value(&self) -> (r: usize)
        ensures
            r == self@[0].value,
    {
        self.value
    }

    /// Replaces the value of this node.
    pub fn set_value(&mut self, value: usize)
        ensures
            final(self)@ == old(self)@.update(0, NodeEntry { addr: old(self)@[0].addr, value }),
    {
        self.value = value;
        assert(final(self)@ =~= old(self)@.update(0, NodeEntry { addr: old(self)@[0].addr, value }));
    }

    /// The node after this one, to read or change in place.
    pub fn get_next(&mut self) -> (r: Option<&mut ListNode>)
        ensures
            r is Some <==> old(self)@.len() > 1,
            match r {
                Some(n) => {
                    &&& n@ == old(self)@.skip(1)
                    &&& final(self)@ == old(self)@.take(1) + final(n)@
                },
                None => final(self)@ == old(self)@,
            },
    {
        match &mut self.next {
            Some(b) => {
                assert((**b)@.len() >= 1);
                let r: &mut ListNode = &mut **b;
                Some(r)
            },
            None => None,
        }
    }

    /// Removes and returns the link to the rest of the list, leaving this node alone.
    pub fn take_next(&mut self) -> (r: Option<Box<ListNode>>)
        ensures
            chain(r) == old(self)@.skip(1),
            final(self)@ == old(self)@.take(1),
    {
        let r = self.next.take();
        assert(chain(r) =~= old(self)@.skip(1));
        assert(final(self)@ =~= old(self)@.take(1));
        r
    }

    /// Links `next` (and everything after it) behind this node, dropping the old rest.
    pub fn set_next(&mut self, next: Option<Box<ListNode>>)
        ensures
            final(self)@ == old(self)@.take(1) + chain(next),
    {
        self.next = next;
        assert(final(self)@ =~= old(self)@.take(1) + chain(next));
    }
}

/// Unlinks the last node after `node` and returns its value; `None` when `node` is last.
fn pop_last_after(node: &mut ListNode) -> (r: Option<usize>)
    ensures
        old(node)@.len() > 1 ==> {
            &&& r == Some(old(node)@.last().value)
            &&& final(node)@ == old(node)@.drop_last()
        },
        old(node)@.len() <= 1 ==> r is None && final(node)@ == old(node)@,
    decreases old(node)@.len(),
{
    match node.take_next() {
        None => None,
        Some(mut rest) => {
            assert(chain(Some(rest)) == (*rest)@);
            if rest.next.is_none() {
                assert((*rest)@ =~= seq![NodeEntry { addr: rest.addr, value: rest.value }]);
                let value = rest.value;
                assert(old(node)@ =~= old(node)@.take(1) + (*rest)@);
                assert(old(node)@.drop_last() =~= old(node)@.take(1));
                Some(value)
            } else {
                let ghost before = (*rest)@;
                assert(before.len() > 1) by {
                    let n = rest.next;
                    assert(before == seq![NodeEntry { addr: rest.addr, value: rest.value }] + chain(n));
                    match n {
                        Some(b) => assert((*b)@.len() >= 1),
                        None => {},
                    }
                }
                let r = pop_last_after(&mut *rest);
                node.set_next(Some(rest));
                assert(old(node)@ =~= old(node)@.take(1) + before);
                assert(final(node)@ =~= old(node)@.drop_last());
                r
            }
        },
    }
}

/// What the contracts of a [`LinkedListAllocator`] speak of: its bump region
/// and the list of nodes rooted at the start of its heap.
pub struct LinkedListState {
    pub bump: BumpState,
    pub list: Seq<NodeEntry>,
}

/// Linked-list backed allocator. Allocation currently proceeds like a bump
/// allocator; the list rooted at the start of the heap can be trimmed with
/// [`LinkedListAllocator::pop_value`].
pub struct LinkedListAllocator {
    bump: BumpAllocator,
    head: ListNode,
}

impl View for LinkedListAllocator {
    type V = LinkedListState;

    closed spec fn view(&self) -> LinkedListState {
        LinkedListState { bump: self.bump@, list: self.head@ }
    }
}

impl LinkedListAllocator {
    /// An allocator with an empty heap.
    pub fn empty() -> (r: Self)
        ensures
            r@.bump == (BumpState { heap_start: 0, heap_end: 0, next: 0, allocations: 0 }),
            r@.list == seq![NodeEntry { addr: 0, value: 0 }],
            r@.bump.wf(),
    {
        LinkedListAllocator { bump: BumpAllocator::empty(), head: ListNode::new(0, 0) }
    }

    /// Initializes the allocator with the heap `[heap_start, heap_start + heap_size)`;
    /// the end saturates at `usize::MAX`. The list at the start of the heap holds
    /// just its first node.
    pub fn init(&mut self, heap_start: usize, heap_size: usize)
        ensures
            final(self)@.bump == (BumpState {
                heap_start,
                heap_end: if heap_start + heap_size <= usize::MAX {
                    (heap_start + heap_size) as usize
                } else {
                    usize::MAX
                },
                next: heap_start,
                allocations: 0,
            }),
            final(self)@.list == seq![NodeEntry { addr: heap_start, value: 0 }],
            final(self)@.bump.wf(),
    {
        self.bump.init(heap_start, heap_size);
        self.head = ListNode::new(heap_start, 0);
    }

    /// Address at which the next allocation is attempted.
    pub fn next(&self) -> (r: usize)
        ensures
            r == self@.bump.next,
    {
        self.bump.next()
    }

    /// Number of allocations not yet freed.
    pub fn allocations(&self) -> (r: usize)
        ensures
            r == self@.bump.allocations,
    {
        self.bump.allocations()
    }

    /// The node at the start of the heap, from which the list hangs.
    pub fn head(&mut self) -> (r: &mut ListNode)
        ensures
            r@ == old(self)@.list,
            final(self)@.bump == old(self)@.bump,
            final(self)@.list == final(r)@,
    {
        &mut self.head
    }

    /// Hands out `size` bytes aligned to `align` at the bump pointer, or `None`
    /// (the null pointer of the global allocator) when they do not fit.
    pub fn allocate(&mut self, size: usize, align: usize) -> (r: Option<usize>)
        requires
            old(self)@.bump.can_alloc(align),
        ensures
            r == old(self)@.bump.alloc_result(size, align),
            final(self)@ == (LinkedListState { bump: old(self)@.bump.after_alloc(size, align), ..old(self)@ }),
            final(self)@.bump.wf(),
    {
        self.bump.allocate(size, align)
    }

    /// Releases one allocation; when none remain the whole heap is reclaimed.
    pub fn dealloc(&mut self)
        requires
            old(self)@.bump.wf(),
            old(self)@.bump.allocations > 0,
        ensures
            final(self)@ == (LinkedListState { bump: old(self)@.bump.after_dealloc(), ..old(self)@ }),
            final(self)@.bump.wf(),
    {
        self.bump.dealloc()
    }

    /// Removes the last node from the list and returns its value; `None` when the
    /// list holds only the node at the start of the heap.
    pub fn pop_value(&mut self) -> (r: Option<usize>)
        ensures
            final(self)@.bump == old(self)@.bump,
            old(self)@.list.len() > 1 ==> {
                &&& r == Some(old(self)@.list.last().value)
                &&& final(self)@.list == old(self)@.list.drop_last()
            },
            old(self)@.list.len() <= 1 ==> r is None && final(self)@ == old(self)@,
    {
        pop_last_after(&mut self.head)
    }
}

} // verus!
