use vstd::prelude::*;

pub mod bump;
pub mod linkedlist;
pub mod fixed_size_block;

verus! {

use vstd::arithmetic::power2::pow2;
use vstd::bits::{low_bits_mask, lemma_usize_low_bits_mask_is_mod};
use vstd::arithmetic::div_mod::{lemma_fundamental_div_mod, lemma_fundamental_div_mod_converse};

/// Virtual address where the kernel heap starts.
pub const HEAP_START: u64 = 0x4444_4444_0000;

/// Size of the kernel heap in bytes (100 KiB).
pub const HEAP_SIZE: usize = 102400;

/// `a` is a power of two that a `usize` can hold.
pub open spec fn is_pow2(a: usize) -> bool {
    exists|n: nat| n < usize::BITS && a as nat == pow2(n)
}

/// The smallest multiple of `align` that is at least `addr`.
pub open spec fn spec_align_up(addr: int, align: int) -> int {
    if addr % align == 0 { addr } else { addr + (align - addr % align) }
}

/// For a power of two `a`, masking off the low bits rounds down to a multiple of `a`.
pub proof fn lemma_mask_is_round_down(x: usize, a: usize)
    requires
        is_pow2(a),
    ensures
        x & !((a - 1) as usize) == x - x % a,
        x & ((a - 1) as usize) == x % a,
        a > 0,
{
    let n = choose|n: nat| n < usize::BITS && a as nat == pow2(n);
    vstd::arithmetic::power2::lemma_pow2_pos(n);
    lemma_usize_low_bits_mask_is_mod(x, n);
    assert(low_bits_mask(n) as usize == (a - 1) as usize);
    let m = (a - 1) as usize;
    assert(x & !m == x - (x & m)) by (bit_vector);
}

/// Subtracting `b % a` from `b = addr + a - 1` gives `addr` rounded up to a
/// multiple of `a`, which lies in `[addr, addr + a)`.
pub proof fn lemma_round_up_arith(addr: int, a: int)
    requires
        a > 0,
        addr >= 0,
    ensures
        (addr + a - 1) - (addr + a - 1) % a == spec_align_up(addr, a),
        spec_align_up(addr, a) % a == 0,
        addr <= spec_align_up(addr, a) < addr + a,
{
    lemma_fundamental_div_mod(addr, a);
    let q = addr / a;
    let r = addr % a;
    let b = addr + a - 1;
    if r == 0 {
        assert(b == q * a + (a - 1) && addr == q * a + 0) by (nonlinear_arith)
            requires b == addr + a - 1, addr == a * q + r, r == 0;
        lemma_fundamental_div_mod_converse(b, a, q, a - 1);
        lemma_fundamental_div_mod_converse(addr, a, q, 0);
    } else {
        assert(b == (q + 1) * a + (r - 1)) by (nonlinear_arith)
            requires b == addr + a - 1, addr == a * q + r;
        lemma_fundamental_div_mod_converse(b, a, q + 1, r - 1);
        assert(spec_align_up(addr, a) == (q + 1) * a + 0) by (nonlinear_arith)
            requires addr == a * q + r, spec_align_up(addr, a) == addr + (a - r);
        lemma_fundamental_div_mod_converse(spec_align_up(addr, a), a, q + 1, 0);
    }
}

/// Align the given address `addr` upwards to alignment `align`.
pub fn align_up(addr: usize, align: usize) -> (r: usize)
    requires
        is_pow2(align),
        addr + align - 1 <= usize::MAX,
    ensures
        r == spec_align_up(addr as int, align as int),
        r % align == 0,
        addr <= r < addr + align,
{
    proof {
        lemma_mask_is_round_down(addr, align);
    }
    let bumped = addr + (align - 1);
    proof {
        lemma_mask_is_round_down(bumped, align);
        lemma_round_up_arith(addr as int, align as int);
    }
    bumped & !(align - 1)
}

/// Size of a page of the kernel's address space.
pub const PAGE_SIZE: u64 = 4096;

/// Number of pages that back the kernel heap.
pub const HEAP_PAGES: u64 = 25;

/// `addr` is a canonical virtual address: bits 48 to 63 copy bit 47.
pub open spec fn is_canonical(addr: u64) -> bool {
    addr < 0x0000_8000_0000_0000 || addr >= 0xffff_8000_0000_0000
}

/// The start address of the 4 KiB page that holds the canonical address `addr`.
///
/// Calls `Page::<Size4KiB>::containing_address` on `VirtAddr::new(addr)`;
/// `VirtAddr::new` panics on a non-canonical address, and the page that holds
/// an address starts at the address rounded down to a multiple of 4096.
#[verifier::external_body]
fn page_containing(addr: u64) -> (r: u64)
    requires
        is_canonical(addr),
    ensures
        r == addr - addr % 4096,
{
    x86_64::structures::paging::Page::<x86_64::structures::paging::Size4KiB>::containing_address(
        x86_64::VirtAddr::new(addr),
    ).start_address().as_u64()
}

/// The start addresses of the pages that hold the bytes
/// `[start, start + size)`, in ascending order.
pub open spec fn spec_page_range(start: u64, size: u64) -> Seq<u64> {
    let first = start - start % 4096;
    let last = (start + size - 1) - (start + size - 1) % 4096;
    Seq::new((((last - first) / 4096) + 1) as nat, |i: int| (first + 4096 * i) as u64)
}

/// The start addresses of the pages that hold the bytes
/// `[start, start + size)`, in ascending order.
pub fn page_range(start: u64, size: u64) -> (r: Vec<u64>)
    requires
        size > 0,
        start + size - 1 <= u64::MAX,
        is_canonical(start),
        is_canonical((start + size - 1) as u64),
    ensures
        r@ == spec_page_range(start, size),
{
    let first = page_containing(start);
    let last = page_containing(start + (size - 1));
    let count = (last - first) / PAGE_SIZE + 1;
    let mut pages: Vec<u64> = Vec::new();
    let mut i: u64 = 0;
    proof {
        lemma_fundamental_div_mod(first as int, 4096);
        lemma_fundamental_div_mod(last as int, 4096);
        lemma_fundamental_div_mod((last - first) as int, 4096);
        assert((last - first) % 4096 == 0) by (nonlinear_arith)
            requires
                first % 4096 == 0,
                last % 4096 == 0,
                first <= last,
        {
            vstd::arithmetic::div_mod::lemma_sub_mod_noop(last as int, first as int, 4096);
        }
        assert(first + 4096 * (count - 1) == last) by (nonlinear_arith)
            requires
                count - 1 == (last - first) / 4096,
                (last - first) % 4096 == 0,
                (last - first) == 4096 * ((last - first) / 4096) + (last - first) % 4096,
        ;
    }
    while i < count
        invariant
            i <= count,
            count == (last - first) / 4096 + 1,
            first + 4096 * (count - 1) == last,
            pages@.len() == i,
            forall|j: int| 0 <= j < i ==> pages@[j] == (first + 4096 * j) as u64,
        decreases count - i,
    {
        assert(first + 4096 * i <= last) by (nonlinear_arith)
            requires
                i < count,
                first + 4096 * (count - 1) == last,
        ;
        pages.push(first + PAGE_SIZE * i);
        i = i + 1;
    }
    assert(pages@ =~= spec_page_range(start, size));
    pages
}

/// The start addresses of the pages that back the kernel heap.
pub fn heap_pages() -> (r: Vec<u64>)
    ensures
        r@ == spec_page_range(HEAP_START, HEAP_SIZE as u64),
        r@.len() == HEAP_PAGES,
        forall|i: int| 0 <= i < HEAP_PAGES ==> r@[i] == HEAP_START + PAGE_SIZE * i,
{
    page_range(HEAP_START, HEAP_SIZE as u64)
}

/// Every byte of `[start, start + size)` lies in one of the pages of
/// `spec_page_range(start, size)`, and every page is 4 KiB aligned.
pub proof fn lemma_page_range_covers(start: u64, size: u64, addr: u64)
    requires
        size > 0,
        start + size - 1 <= u64::MAX,
        start <= addr < start + size,
    ensures
        ({
            let pages = spec_page_range(start, size);
            let k = (addr - addr % 4096 - (start - start % 4096)) / 4096;
            &&& 0 <= k < pages.len()
            &&& pages[k] <= addr < pages[k] + 4096
            &&& pages[k] % 4096 == 0
        }),
{
    let first = start - start % 4096;
    let last = (start + size - 1) - (start + size - 1) % 4096;
    let page = addr - addr % 4096;
    lemma_fundamental_div_mod(start as int, 4096);
    lemma_fundamental_div_mod(addr as int, 4096);
    lemma_fundamental_div_mod((start + size - 1) as int, 4096);
    let qs = start / 4096;
    let qa = addr / 4096;
    let ql = (start + size - 1) / 4096;
    vstd::arithmetic::div_mod::lemma_div_is_ordered(start as int, addr as int, 4096);
    vstd::arithmetic::div_mod::lemma_div_is_ordered(addr as int, (start + size - 1) as int, 4096);
    assert(page - first == 4096 * (qa - qs)) by (nonlinear_arith)
        requires
            page == 4096 * qa,
            first == 4096 * qs,
    ;
    assert(last - first == 4096 * (ql - qs)) by (nonlinear_arith)
        requires
            last == 4096 * ql,
            first == 4096 * qs,
    ;
    vstd::arithmetic::div_mod::lemma_div_multiples_vanish((qa - qs) as int, 4096);
    vstd::arithmetic::div_mod::lemma_div_multiples_vanish((ql - qs) as int, 4096);
    assert(page % 4096 == 0) by (nonlinear_arith)
        requires
            page == 4096 * qa,
    {
        vstd::arithmetic::div_mod::lemma_mod_multiples_basic(qa as int, 4096);
    }
}

} // verus!
