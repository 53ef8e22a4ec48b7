//! Heap layout and the helpers shared by the allocator strategies.
use vstd::prelude::*;

use crate::memory::{BootInfoFrameAllocator, nth_frame, PAGE_SIZE};

pub mod bump;
pub mod linked_list;
pub mod fixed_size_block;

verus! {

/// First address of the kernel heap.
pub const HEAP_START: u64 = 0x4444_4444_0000;

/// Size of the kernel heap in bytes (100 KiB).
pub const HEAP_SIZE: u64 = 102400;

/// `n` is a power of two.
pub open spec fn is_power_of_two(n: int) -> bool
    decreases n,
{
    if n <= 0 {
        false
    } else if n == 1 {
        true
    } else {
        n % 2 == 0 && is_power_of_two(n / 2)
    }
}

/// Whether `n` is a power of two.
pub fn is_power_of_two_u64(n: u64) -> (r: bool)
    ensures
        r == is_power_of_two(n as int),
{
    if n == 0 {
        return false;
    }
    let mut m: u64 = n;
    while m > 1
        invariant
            0 < m <= n,
            is_power_of_two(n as int) == is_power_of_two(m as int),
        decreases m,
    {
        if m % 2 != 0 {
            return false;
        }
        m = m / 2;
    }
    true
}

/// A power of two is positive.
pub proof fn lemma_power_of_two_positive(n: int)
    requires
        is_power_of_two(n),
    ensures
        n > 0,
{
}

/// A power of two divides every larger power of two.
pub proof fn lemma_power_of_two_divides(a: int, b: int)
    requires
        is_power_of_two(a),
        is_power_of_two(b),
        a <= b,
    ensures
        b % a == 0,
    decreases a,
{
    if a != 1 {
        assert(b != 1);
        lemma_power_of_two_divides(a / 2, b / 2);
        let k = (b / 2) / (a / 2);
        vstd::arithmetic::div_mod::lemma_fundamental_div_mod(b / 2, a / 2);
        assert(b == k * a) by (nonlinear_arith)
            requires
                b / 2 == (a / 2) * k,
                b % 2 == 0,
                a % 2 == 0,
                b == 2 * (b / 2),
                a == 2 * (a / 2),
        ;
        vstd::arithmetic::div_mod::lemma_mod_multiples_basic(k, a);
    }
}

/// A multiple of `a` is a multiple of every divisor of `a`.
pub proof fn lemma_multiple_of_divisor(x: int, a: int, d: int)
    requires
        0 < d,
        0 < a,
        x % a == 0,
        a % d == 0,
    ensures
        x % d == 0,
{
    vstd::arithmetic::div_mod::lemma_fundamental_div_mod(x, a);
    vstd::arithmetic::div_mod::lemma_fundamental_div_mod(a, d);
    let q = (x / a) * (a / d);
    assert(x == q * d) by (nonlinear_arith)
        requires
            x == a * (x / a),
            a == d * (a / d),
            q == (x / a) * (a / d),
    ;
    vstd::arithmetic::div_mod::lemma_mod_multiples_basic(q, d);
}

/// The smallest multiple of `align` that is not below `addr`.
pub open spec fn align_up_spec(addr: int, align: int) -> int {
    if addr % align == 0 {
        addr
    } else {
        addr + (align - addr % align)
    }
}

/// Facts about rounding up that every strategy relies on.
pub proof fn lemma_align_up(addr: int, align: int)
    requires
        0 <= addr,
        0 < align,
    ensures
        align_up_spec(addr, align) % align == 0,
        addr <= align_up_spec(addr, align) < addr + align,
{
    let r = addr % align;
    let q = addr / align;
    vstd::arithmetic::div_mod::lemma_mod_bound(addr, align);
    vstd::arithmetic::div_mod::lemma_fundamental_div_mod(addr, align);
    if r != 0 {
        assert(addr + (align - r) == (q + 1) * align) by (nonlinear_arith)
            requires
                addr == align * q + r,
        ;
        vstd::arithmetic::div_mod::lemma_mod_multiples_basic(q + 1, align);
    }
}

/// Rounds `addr` up to the next multiple of `align`, or `None` when that
/// multiple does not fit in a `u64`.
pub fn align_up(addr: u64, align: u64) -> (r: Option<u64>)
    requires
        align > 0,
    ensures
        r == (if align_up_spec(addr as int, align as int) <= u64::MAX {
            Some(align_up_spec(addr as int, align as int) as u64)
        } else {
            None::<u64>
        }),
{
    let rem = addr % align;
    if rem == 0 {
        Some(addr)
    } else {
        addr.checked_add(align - rem)
    }
}

/// An allocator that never has memory: every request fails.
pub struct Dummy;

impl Dummy {
    /// Always `None`.
    pub fn allocate(&self, size: u64, align: u64) -> (r: Option<u64>)
        ensures
            r is None,
    {
        None
    }
}

/// Why mapping the heap failed.
#[derive(Clone, Copy, Debug, PartialEq, Eq)]
pub enum MapToError {
    /// No physical frame was left for a page or for a page table.
    FrameAllocationFailed,
    /// An entry on the page's path maps a huge page.
    ParentEntryHugePage,
    /// The page is already mapped, to the frame given.
    PageAlreadyMapped(u64),
}

/// One step of mapping the heap.
#[derive(Clone, Copy, Debug, PartialEq, Eq)]
pub enum HeapStep {
    /// Map `page` to `frame`, present and writable.
    MapPage { page: u64, frame: u64 },
    /// Every page of the heap has its frame.
    Done,
}

/// The pages of a heap region that still need a frame: `[next_page, end)`.
pub struct HeapMapping {
    pub next_page: u64,
    pub end: u64,
}

impl HeapMapping {
    /// Both bounds are page boundaries, in order.
    pub open spec fn wf(&self) -> bool {
        &&& self.next_page <= self.end
        &&& self.next_page as int % 4096 == 0
        &&& self.end as int % 4096 == 0
    }

    /// The pages that cover `[heap_start, heap_start + heap_size)`: from the
    /// page holding the first byte to the page holding the last one.
    pub fn new(heap_start: u64, heap_size: u64) -> (r: HeapMapping)
        requires
            heap_size > 0,
            heap_start + heap_size + 4096 <= u64::MAX,
        ensures
            r.wf(),
            r.next_page == heap_start - heap_start as int % 4096,
            r.end == (heap_start + heap_size - 1) - (heap_start + heap_size - 1) as int % 4096 + 4096,
    {
        let last_byte = heap_start + heap_size - 1;
        let first_page = heap_start - heap_start % PAGE_SIZE;
        let last_page = last_byte - last_byte % PAGE_SIZE;
        proof {
            vstd::arithmetic::div_mod::lemma_fundamental_div_mod(heap_start as int, 4096);
            vstd::arithmetic::div_mod::lemma_fundamental_div_mod(last_byte as int, 4096);
            vstd::arithmetic::div_mod::lemma_mod_multiples_basic(heap_start as int / 4096, 4096);
            vstd::arithmetic::div_mod::lemma_mod_multiples_basic(last_byte as int / 4096 + 1, 4096);
            assert(first_page as int == (heap_start as int / 4096) * 4096);
            assert(last_page + 4096 == (last_byte as int / 4096 + 1) * 4096);
        }
        HeapMapping { next_page: first_page, end: last_page + PAGE_SIZE }
    }

    /// Takes the next page that needs a frame and draws its frame from
    /// `frames`. Fails when no frame is left, with nothing taken.
    pub fn next_step(&mut self, frames: &mut BootInfoFrameAllocator) -> (r: Result<HeapStep, MapToError>)
        requires
            old(self).wf(),
        ensures
            final(self).wf(),
            final(self).end == old(self).end,
            final(frames).regions() == old(frames).regions(),
            old(self).next_page == old(self).end ==> {
                &&& r == Ok::<HeapStep, MapToError>(HeapStep::Done)
                &&& final(self).next_page == old(self).next_page
                &&& final(frames).handed_out() == old(frames).handed_out()
            },
            old(self).next_page < old(self).end ==> match r {
                Ok(HeapStep::MapPage { page, frame }) => {
                    &&& page == old(self).next_page
                    &&& old(frames).handed_out() < u64::MAX
                    &&& nth_frame(old(frames).regions(), old(frames).handed_out()) == Some(frame as int)
                    &&& final(frames).handed_out() == old(frames).handed_out() + 1
                    &&& final(self).next_page == old(self).next_page + 4096
                },
                Ok(HeapStep::Done) => false,
                Err(e) => {
                    &&& e == MapToError::FrameAllocationFailed
                    &&& (old(frames).handed_out() == u64::MAX || nth_frame(old(frames).regions(), old(frames).handed_out()) is None)
                    &&& final(frames).handed_out() == old(frames).handed_out()
                    &&& final(self).next_page == old(self).next_page
                },
            },
    {
        if self.next_page == self.end {
            return Ok(HeapStep::Done);
        }
        match frames.allocate_frame() {
            Some(frame) => {
                let page = self.next_page;
                proof {
                    vstd::arithmetic::div_mod::lemma_mod_multiples_vanish(1, page as int, 4096);
                    vstd::arithmetic::div_mod::lemma_mod_multiples_vanish(1, self.end as int - 4096, 4096);
                    vstd::arithmetic::div_mod::lemma_fundamental_div_mod(page as int, 4096);
                    vstd::arithmetic::div_mod::lemma_fundamental_div_mod(self.end as int, 4096);
                }
                self.next_page = page + PAGE_SIZE;
                Ok(HeapStep::MapPage { page, frame })
            },
            None => Err(MapToError::FrameAllocationFailed),
        }
    }
}

} // verus!
