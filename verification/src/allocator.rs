//! The kernel heap: address alignment and the pages the heap occupies.
//!
//! Mapping the pages and handing the heap to an allocator is the caller's
//! work; this module decides which pages those are.

use vstd::arithmetic::power2::{lemma2_to64, lemma_pow2_pos, lemma_pow2_strictly_increases, pow2};
use vstd::bits::{lemma_usize_low_bits_mask_is_mod, low_bits_mask};
use vstd::prelude::*;
use x86_64::structures::paging::{Page, Size4KiB};
use x86_64::VirtAddr;

verus! {

/// Start of the kernel heap in virtual memory.
pub const HEAP_START: u64 = 0x_4444_4444_0000;

/// Size of the kernel heap: 100 KiB.
pub const HEAP_SIZE: u64 = 100 * 1024;

/// Size of a (4 KiB) page.
pub const PAGE_SIZE: u64 = 4096;

/// `n` is a power of two.
pub open spec fn is_power_of_two(n: usize) -> bool {
    exists|k: nat| pow2(k) == n
}

/// Align the given address `addr` upwards to alignment `align`.
///
/// Requires that `align` is a power of two.
pub fn align_up(addr: usize, align: usize) -> (r: usize)
    requires
        is_power_of_two(align),
        addr + align <= usize::MAX,
    ensures
        r % align == 0,
        addr <= r,
        r - addr < align,
{
    let ghost k = choose|k: nat| pow2(k) == align;
    proof {
        lemma_pow2_pos(k);
    }
    let m = align - 1;
    let s = addr + m;
    proof {
        lemma2_to64();
        if k >= usize::BITS {
            if k > usize::BITS {
                lemma_pow2_strictly_increases(usize::BITS as nat, k);
            }
            assert(false);
        }
        assert(low_bits_mask(k) == pow2(k) - 1);
        lemma_usize_low_bits_mask_is_mod(s & !m, k);
        assert((s & !m) & m == 0 && (s & !m) <= s && s - (s & !m) <= m) by (bit_vector);
    }
    (addr + align - 1) & !(align - 1)
}

/// The address is canonical: bits 48 to 63 repeat bit 47.
pub open spec fn is_canonical(addr: u64) -> bool {
    addr < 0x0000_8000_0000_0000 || addr >= 0xffff_8000_0000_0000
}

/// Start of the 4 KiB page that holds `addr`.
pub open spec fn page_start(addr: int) -> int {
    addr - addr % PAGE_SIZE as int
}

/// `Page::<Size4KiB>::containing_address` of x86_64 on `VirtAddr::new(addr)`:
/// the start of the 4 KiB page holding the canonical address `addr`, which
/// is `addr` rounded down to a multiple of 4096. `VirtAddr::new` panics on a
/// non-canonical address, which `requires` leaves out.
#[verifier::external_body]
fn containing_page_start(addr: u64) -> (start: u64)
    requires
        is_canonical(addr),
    ensures
        start == page_start(addr as int),
{
    Page::<Size4KiB>::containing_address(VirtAddr::new(addr)).start_address().as_u64()
}

/// The starts of the pages that the `size` bytes from `start` on touch, in
/// increasing order.
pub open spec fn page_span(start: int, size: int) -> Seq<int> {
    let first = page_start(start);
    let last = page_start(start + size - 1);
    Seq::new((((last - first) / PAGE_SIZE as int) + 1) as nat, |k: int| first + k * PAGE_SIZE as int)
}

/// The pages the kernel heap occupies.
pub open spec fn heap_pages() -> Seq<int> {
    page_span(HEAP_START as int, HEAP_SIZE as int)
}

/// Byte `a` lies in one of the pages starting at `pages`.
pub open spec fn in_some_page(pages: Seq<int>, a: int) -> bool {
    exists|k: int| 0 <= k < pages.len() && pages[k] <= a < #[trigger] pages[k] + PAGE_SIZE
}

/// The pages of a span start on page boundaries, follow each other
/// directly, and together hold every byte of the span and nothing before
/// its first page.
pub proof fn lemma_page_span(start: int, size: int)
    requires
        0 <= start,
        1 <= size,
    ensures
        ({
            let pages = page_span(start, size);
            &&& pages.len() >= 1
            &&& pages[0] <= start
            &&& start + size <= pages.last() + PAGE_SIZE
            &&& forall|k: int| 0 <= k < pages.len() ==> #[trigger] pages[k] % PAGE_SIZE as int == 0
            &&& forall|k: int| 0 <= k < pages.len() - 1 ==> #[trigger] pages[k + 1] == pages[k] + PAGE_SIZE
            &&& forall|a: int| start <= a < start + size ==> #[trigger] in_some_page(pages, a)
        }),
{
    let pages = page_span(start, size);
    let first = page_start(start);
    let last = page_start(start + size - 1);
    assert(first % 4096 == 0);
    assert(last % 4096 == 0);
    assert(first <= last);
    assert forall|k: int| 0 <= k < pages.len() implies #[trigger] pages[k] % PAGE_SIZE as int == 0 by {
        assert((first + k * 4096) % 4096 == 0) by (nonlinear_arith)
            requires
                first % 4096 == 0,
        ;
    }
    assert((last - first) / 4096 * 4096 == last - first) by (nonlinear_arith)
        requires
            (last - first) % 4096 == 0,
            last >= first,
    ;
    assert(pages.last() == last) by (nonlinear_arith)
        requires
            pages.last() == first + ((last - first) / 4096) * 4096,
            (last - first) / 4096 * 4096 == last - first,
    ;
    assert forall|a: int| start <= a < start + size implies #[trigger] in_some_page(pages, a) by {
        let p = page_start(a);
        let k = (p - first) / 4096;
        assert(p % 4096 == 0);
        assert(first <= p <= last);
        assert(k * 4096 == p - first) by (nonlinear_arith)
            requires
                (p - first) % 4096 == 0,
                k == (p - first) / 4096,
        ;
        assert(0 <= k <= (last - first) / 4096) by (nonlinear_arith)
            requires
                first <= p <= last,
                k == (p - first) / 4096,
        ;
        assert(pages[k] == p);
    }
}

/// The pages of the kernel heap, handed out one after the other.
pub struct HeapPages {
    next: u64,
    end: u64,
}

impl HeapPages {
    #[verifier::type_invariant]
    spec fn inv(self) -> bool {
        &&& self.next % 4096 == 0
        &&& self.end % 4096 == 0
        &&& self.next <= self.end + 4096
        &&& self.end < 0x0000_8000_0000_0000
    }

    /// The page starts still to be handed out.
    pub closed spec fn remaining(&self) -> Seq<int> {
        Seq::new(
            if self.next <= self.end { ((self.end - self.next) / 4096 + 1) as nat } else { 0 },
            |k: int| self.next + k * 4096,
        )
    }

    /// The pages of the whole heap.
    pub fn new() -> (h: HeapPages)
        ensures
            h.remaining() == heap_pages(),
    {
        let first = containing_page_start(HEAP_START);
        let last = containing_page_start(HEAP_START + HEAP_SIZE - 1);
        let h = HeapPages { next: first, end: last };
        assert(h.remaining() =~= heap_pages());
        h
    }

    /// The start of the next page of the heap, if one is left.
    pub fn next_page(&mut self) -> (r: Option<u64>)
        ensures
            old(self).remaining().len() > 0 ==> r == Some(old(self).remaining()[0] as u64)
                && final(self).remaining() == old(self).remaining().drop_first(),
            old(self).remaining().len() == 0 ==> r.is_none() && final(self).remaining() == old(self).remaining(),
    {
        proof {
            use_type_invariant(&*self);
        }
        if self.next <= self.end {
            let page = self.next;
            self.next = self.next + 4096;
            assert(self.remaining() =~= old(self).remaining().drop_first());
            Some(page)
        } else {
            None
        }
    }
}

/// The kernel heap starts on a page boundary and takes up 25 whole pages,
/// which hold every byte of it.
pub proof fn lemma_heap_pages()
    ensures
        heap_pages().len() == 25,
        heap_pages()[0] == HEAP_START,
        heap_pages().last() + PAGE_SIZE == HEAP_START + HEAP_SIZE,
        forall|a: int| HEAP_START <= a < HEAP_START + HEAP_SIZE ==> #[trigger] in_some_page(heap_pages(), a),
{
    lemma_page_span(HEAP_START as int, HEAP_SIZE as int);
}

} // verus!
