//! Bump allocator: a cursor that only moves forward and rewinds when every
//! allocation has been returned.
use vstd::prelude::*;

use super::{align_up, align_up_spec, is_power_of_two, lemma_align_up, lemma_power_of_two_positive};

verus! {

/// The abstract state of a bump allocator.
pub ghost struct BumpModel {
    pub heap_start: int,
    pub heap_end: int,
    pub next: int,
    pub allocations: int,
}

impl BumpModel {
    /// Bounds are ordered, the cursor lies inside the heap, no more blocks are
    /// live than bytes were handed out, and with nothing live the cursor is at
    /// the start.
    pub open spec fn wf(self) -> bool {
        &&& 0 <= self.heap_start <= self.next <= self.heap_end <= u64::MAX
        &&& 0 <= self.allocations <= self.next - self.heap_start
        &&& (self.allocations == 0 ==> self.next == self.heap_start)
    }

    /// Where an allocation of `size` bytes aligned to `align` would start.
    pub open spec fn alloc_start(self, align: int) -> int {
        align_up_spec(self.next, align)
    }

    /// Whether an allocation of `size` bytes aligned to `align` fits.
    pub open spec fn alloc_fits(self, size: int, align: int) -> bool {
        self.alloc_start(align) + size <= self.heap_end
    }

    /// The state after an allocation request (unchanged when it does not fit).
    pub open spec fn after_alloc(self, size: int, align: int) -> BumpModel {
        if self.alloc_fits(size, align) {
            BumpModel {
                next: self.alloc_start(align) + size,
                allocations: self.allocations + 1,
                ..self
            }
        } else {
            self
        }
    }

    /// The state after one block is returned.
    pub open spec fn after_dealloc(self) -> BumpModel {
        if self.allocations - 1 == 0 {
            BumpModel { next: self.heap_start, allocations: 0, ..self }
        } else {
            BumpModel { allocations: self.allocations - 1, ..self }
        }
    }
}

/// One request made of a bump allocator.
pub ghost enum BumpOp {
    Alloc { size: int, align: int },
    Dealloc,
}

impl BumpModel {
    /// The state after one request.
    pub open spec fn step(self, op: BumpOp) -> BumpModel {
        match op {
            BumpOp::Alloc { size, align } => self.after_alloc(size, align),
            BumpOp::Dealloc => self.after_dealloc(),
        }
    }

    /// A request that the allocator accepts in this state: an allocation of a
    /// non-empty block with a power-of-two alignment, or the return of a block
    /// while one is live.
    pub open spec fn accepts(self, op: BumpOp) -> bool {
        match op {
            BumpOp::Alloc { size, align } => size > 0 && is_power_of_two(align),
            BumpOp::Dealloc => self.allocations > 0,
        }
    }

    /// The state after a sequence of requests.
    pub open spec fn run(self, ops: Seq<BumpOp>) -> BumpModel
        decreases ops.len(),
    {
        if ops.len() == 0 {
            self
        } else {
            self.step(ops[0]).run(ops.drop_first())
        }
    }

    /// Every request of `ops` is accepted in the state it meets.
    pub open spec fn accepts_all(self, ops: Seq<BumpOp>) -> bool
        decreases ops.len(),
    {
        ops.len() == 0 || (self.accepts(ops[0]) && self.step(ops[0]).accepts_all(ops.drop_first()))
    }

    /// How many allocation requests of `ops` succeed, starting from this state.
    pub open spec fn granted(self, ops: Seq<BumpOp>) -> int
        decreases ops.len(),
    {
        if ops.len() == 0 {
            0
        } else {
            let here: int = match ops[0] {
                BumpOp::Alloc { size, align } => if self.alloc_fits(size, align) { 1 } else { 0 },
                BumpOp::Dealloc => 0,
            };
            here + self.step(ops[0]).granted(ops.drop_first())
        }
    }
}

/// How many blocks `ops` returns.
pub open spec fn returned(ops: Seq<BumpOp>) -> int
    decreases ops.len(),
{
    if ops.len() == 0 {
        0
    } else {
        (if ops[0] is Dealloc { 1int } else { 0int }) + returned(ops.drop_first())
    }
}

/// One accepted request keeps the state well formed and the heap bounds fixed.
proof fn lemma_step(m: BumpModel, op: BumpOp)
    requires
        m.wf(),
        m.accepts(op),
    ensures
        m.step(op).wf(),
        m.step(op).heap_start == m.heap_start,
        m.step(op).heap_end == m.heap_end,
{
    if let BumpOp::Alloc { size, align } = op {
        lemma_power_of_two_positive(align);
        lemma_align_up(m.next, align);
    }
}

/// Running accepted requests keeps the state well formed, and the live count
/// moves by the granted allocations less the returned blocks.
proof fn lemma_run(m: BumpModel, ops: Seq<BumpOp>)
    requires
        m.wf(),
        m.accepts_all(ops),
    ensures
        m.run(ops).wf(),
        m.run(ops).heap_start == m.heap_start,
        m.run(ops).heap_end == m.heap_end,
        m.run(ops).allocations == m.allocations + m.granted(ops) - returned(ops),
    decreases ops.len(),
{
    if ops.len() > 0 {
        lemma_step(m, ops[0]);
        lemma_run(m.step(ops[0]), ops.drop_first());
    }
}

/// Starting with nothing live, once every granted allocation has been
/// returned, the live count is zero again and the cursor is back at the start
/// of the heap.
pub proof fn lemma_balanced_run_resets(m: BumpModel, ops: Seq<BumpOp>)
    requires
        m.wf(),
        m.allocations == 0,
        m.accepts_all(ops),
        m.granted(ops) == returned(ops),
    ensures
        m.run(ops).allocations == 0,
        m.run(ops).next == m.heap_start,
{
    lemma_run(m, ops);
}

/// A bump (stack) allocator: hands out memory linearly and can free it only
/// all at once, when the count of live allocations drops to zero.
pub struct BumpAllocator {
    heap_start: u64,
    heap_end: u64,
    next: u64,
    allocations: u64,
}

impl View for BumpAllocator {
    type V = BumpModel;

    closed spec fn view(&self) -> BumpModel {
        BumpModel {
            heap_start: self.heap_start as int,
            heap_end: self.heap_end as int,
            next: self.next as int,
            allocations: self.allocations as int,
        }
    }
}

impl BumpAllocator {
    /// Creates an empty bump allocator over an empty heap.
    pub fn new() -> (r: BumpAllocator)
        ensures
            r@ == (BumpModel { heap_start: 0, heap_end: 0, next: 0, allocations: 0 }),
            r@.wf(),
    {
        BumpAllocator { heap_start: 0, heap_end: 0, next: 0, allocations: 0 }
    }

    /// Sets the heap to `[heap_start, heap_start + heap_size)`. The range must
    /// be unused and nothing may be live.
    pub fn init(&mut self, heap_start: u64, heap_size: u64)
        requires
            old(self)@.wf(),
            old(self)@.allocations == 0,
            heap_start + heap_size <= u64::MAX,
        ensures
            final(self)@ == (BumpModel {
                heap_start: heap_start as int,
                heap_end: heap_start + heap_size,
                next: heap_start as int,
                allocations: 0,
            }),
            final(self)@.wf(),
    {
        self.heap_start = heap_start;
        self.heap_end = heap_start + heap_size;
        self.next = heap_start;
    }

    /// Allocates `size` bytes aligned to `align`: returns the aligned cursor
    /// and advances it past the block, or `None` when the heap is exhausted.
    pub fn allocate(&mut self, size: u64, align: u64) -> (r: Option<u64>)
        requires
            old(self)@.wf(),
            size > 0,
            is_power_of_two(align as int),
        ensures
            final(self)@ == old(self)@.after_alloc(size as int, align as int),
            final(self)@.wf(),
            r == (if old(self)@.alloc_fits(size as int, align as int) {
                Some(old(self)@.alloc_start(align as int) as u64)
            } else {
                None::<u64>
            }),
            r matches Some(p) ==> {
                &&& p as int % align as int == 0
                &&& old(self)@.heap_start <= p
                &&& p + size <= old(self)@.heap_end
            },
    {
        proof {
            lemma_align_up(self.next as int, align as int);
        }
        let alloc_start = match align_up(self.next, align) {
            Some(start) => start,
            None => return None,
        };
        let alloc_end = match alloc_start.checked_add(size) {
            Some(end) => end,
            None => return None,
        };
        if alloc_end > self.heap_end {
            None
        } else {
            self.next = alloc_end;
            self.allocations = self.allocations + 1;
            Some(alloc_start)
        }
    }

    /// How many blocks are live.
    pub fn live_count(&self) -> (r: u64)
        ensures
            r == self@.allocations,
    {
        self.allocations
    }

    /// Returns one block. When it was the last live one, the cursor rewinds to
    /// the start of the heap.
    pub fn deallocate(&mut self, ptr: u64, size: u64, align: u64)
        requires
            old(self)@.wf(),
            old(self)@.allocations > 0,
        ensures
            final(self)@ == old(self)@.after_dealloc(),
            final(self)@.wf(),
    {
        self.allocations = self.allocations - 1;
        if self.allocations == 0 {
            self.next = self.heap_start;
        }
    }
}

} // verus!
