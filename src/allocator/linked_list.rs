//! First-fit free-list allocator. Free regions are kept in list order; the
//! region that serves an allocation is split and its tail goes back to the
//! front of the list.
use vstd::prelude::*;

use super::{
    align_up, align_up_spec, is_power_of_two, lemma_align_up, lemma_multiple_of_divisor,
    lemma_power_of_two_divides, lemma_power_of_two_positive,
};

verus! {

/// Bytes needed to keep a free region on the list.
pub const NODE_SIZE: u64 = 16;

/// Alignment needed to keep a free region on the list.
pub const NODE_ALIGN: u64 = 8;

/// A block of memory as `(start, size)`.
pub type Block = (int, int);

/// The end address of a block.
pub open spec fn block_end(b: Block) -> int {
    b.0 + b.1
}

/// The two blocks share no byte.
pub open spec fn disjoint(a: Block, b: Block) -> bool {
    block_end(a) <= b.0 || block_end(b) <= a.0
}

/// `b` lies inside `r`.
pub open spec fn inside(b: Block, r: Block) -> bool {
    r.0 <= b.0 && block_end(b) <= block_end(r)
}

/// The block could hold a list node once it is free.
pub open spec fn node_ok(b: Block) -> bool {
    b.0 % NODE_ALIGN as int == 0 && b.1 >= NODE_SIZE as int
}

/// `(size, align)` describes a valid layout even once its alignment is raised
/// to the node alignment.
pub open spec fn layout_ok(size: int, align: int) -> bool {
    &&& is_power_of_two(align)
    &&& size + max_align(align) - 1 <= 0x7fff_ffff_ffff_ffff
}

/// The alignment of a request, raised so that the block can hold a node.
pub open spec fn max_align(align: int) -> int {
    if align > NODE_ALIGN as int {
        align
    } else {
        NODE_ALIGN as int
    }
}

/// The size and alignment actually reserved for a request: the alignment is
/// raised to the node alignment, the size padded to it and raised to a node.
pub open spec fn adjusted(size: int, align: int) -> (int, int) {
    let a = max_align(align);
    let padded = align_up_spec(size, a);
    (if padded > NODE_SIZE as int { padded } else { NODE_SIZE as int }, a)
}

/// Whether a free region can serve `size` bytes aligned to `align`: the block
/// fits, and what is left behind it is either nothing or large enough to be a
/// free region itself.
pub open spec fn fits(r: Block, size: int, align: int) -> bool {
    let s = align_up_spec(r.0, align);
    let e = s + size;
    e <= block_end(r) && (e == block_end(r) || block_end(r) - e >= NODE_SIZE as int)
}

/// `i` is the first region of `free` that can serve the request.
pub open spec fn first_fit_at(free: Seq<Block>, i: int, size: int, align: int) -> bool {
    &&& 0 <= i < free.len()
    &&& fits(free[i], size, align)
    &&& forall|j: int| 0 <= j < i ==> !fits(#[trigger] free[j], size, align)
}

/// The abstract state of a free-list allocator: the free regions in list
/// order, the blocks handed out and not yet returned, and the heap bounds.
pub ghost struct FreeListModel {
    pub free: Seq<Block>,
    pub live: Set<Block>,
    pub heap_start: int,
    pub heap_end: int,
}

impl FreeListModel {
    /// Every free region and live block lies in the heap and could hold a
    /// node, and no two of them overlap.
    pub open spec fn wf(self) -> bool {
        &&& 0 <= self.heap_start <= self.heap_end <= u64::MAX
        &&& self.live.finite()
        &&& forall|i: int|
            0 <= i < self.free.len() ==> node_ok(#[trigger] self.free[i]) && self.heap_start
                <= self.free[i].0 && block_end(self.free[i]) <= self.heap_end
        &&& forall|b: Block|
            #[trigger] self.live.contains(b) ==> node_ok(b) && self.heap_start <= b.0
                && block_end(b) <= self.heap_end
        &&& forall|i: int, j: int|
            0 <= i < self.free.len() && 0 <= j < self.free.len() && i != j ==> disjoint(
                #[trigger] self.free[i],
                #[trigger] self.free[j],
            )
        &&& forall|i: int, b: Block|
            0 <= i < self.free.len() && #[trigger] self.live.contains(b) ==> disjoint(
                #[trigger] self.free[i],
                b,
            )
        &&& forall|a: Block, b: Block|
            #[trigger] self.live.contains(a) && #[trigger] self.live.contains(b) && a != b
                ==> disjoint(a, b)
    }

    /// The state after region `i` serves `size` bytes aligned to `align`: the
    /// block becomes live and the tail behind it, if any, goes to the front.
    pub open spec fn carve(self, i: int, size: int, align: int) -> FreeListModel {
        let r = self.free[i];
        let p = align_up_spec(r.0, align);
        let e = p + size;
        let rest = self.free.remove(i);
        FreeListModel {
            free: if e < block_end(r) {
                seq![(e, block_end(r) - e)] + rest
            } else {
                rest
            },
            live: self.live.insert((p, size)),
            ..self
        }
    }
}

impl FreeListModel {
    /// `r` and `next` are what an allocation of `size` bytes aligned to
    /// `align` returns and leaves behind: the first region that fits the
    /// adjusted request is carved, and `None` comes exactly when none fits.
    pub open spec fn alloc_result(self, size: int, align: int, r: Option<u64>, next: FreeListModel) -> bool {
        let (sz, al) = adjusted(size, align);
        &&& r is None <==> forall|j: int|
            0 <= j < self.free.len() ==> !fits(#[trigger] self.free[j], sz, al)
        &&& r is None ==> next == self
        &&& r matches Some(p) ==> exists|i: int|
            {
                &&& first_fit_at(self.free, i, sz, al)
                &&& p == align_up_spec(self.free[i].0, al)
                &&& next == self.carve(i, sz, al)
            }
    }
}

/// A free region of the heap.
pub struct ListNode {
    start: u64,
    size: u64,
}

impl View for ListNode {
    type V = Block;

    closed spec fn view(&self) -> Block {
        (self.start as int, self.size as int)
    }
}

impl ListNode {
    /// A free region of `size` bytes at `start`.
    pub fn new(start: u64, size: u64) -> (r: ListNode)
        ensures
            r@ == (start as int, size as int),
    {
        ListNode { start, size }
    }

    /// The first address of the region.
    pub fn start_addr(&self) -> (r: u64)
        ensures
            r == self@.0,
    {
        self.start
    }

    /// The address just past the region.
    pub fn end_addr(&self) -> (r: u64)
        requires
            block_end(self@) <= u64::MAX,
        ensures
            r == block_end(self@),
    {
        self.start + self.size
    }
}

/// An allocator that keeps the free memory of the heap as a list of regions
/// and serves each request from the first region that fits.
pub struct LinkedListAllocator {
    regions: Vec<ListNode>,
    live: Ghost<Set<Block>>,
    heap: Ghost<(int, int)>,
}

impl View for LinkedListAllocator {
    type V = FreeListModel;

    closed spec fn view(&self) -> FreeListModel {
        FreeListModel {
            free: self.regions@.map_values(|n: ListNode| n@),
            live: self.live@,
            heap_start: self.heap@.0,
            heap_end: self.heap@.1,
        }
    }
}

/// Returning a live block to the front of the list keeps the allocator well
/// formed.
proof fn lemma_release(m: FreeListModel, b: Block)
    requires
        m.wf(),
        m.live.contains(b),
    ensures
        (FreeListModel { free: seq![b] + m.free, live: m.live.remove(b), ..m }).wf(),
{
    let n = FreeListModel { free: seq![b] + m.free, live: m.live.remove(b), ..m };
    assert forall|k: int| 0 <= k < n.free.len() implies (#[trigger] n.free[k] == (if k == 0 {
        b
    } else {
        m.free[k - 1]
    })) by {}
    assert forall|x: int, y: int|
        0 <= x < n.free.len() && 0 <= y < n.free.len() && x != y implies disjoint(
        #[trigger] n.free[x],
        #[trigger] n.free[y],
    ) by {
        if x == 0 {
            assert(disjoint(m.free[y - 1], b));
        } else if y == 0 {
            assert(disjoint(m.free[x - 1], b));
        } else {
            assert(disjoint(m.free[x - 1], m.free[y - 1]));
        }
    }
    assert forall|x: int, c: Block|
        0 <= x < n.free.len() && #[trigger] n.live.contains(c) implies disjoint(
        #[trigger] n.free[x],
        c,
    ) by {
        assert(m.live.contains(c));
        if x != 0 {
            assert(disjoint(m.free[x - 1], c));
        }
    }
    assert forall|a: Block, c: Block|
        #[trigger] n.live.contains(a) && #[trigger] n.live.contains(c) && a != c implies disjoint(
        a,
        c,
    ) by {
        assert(m.live.contains(a) && m.live.contains(c));
    }
}

/// Carving a fitting region keeps the allocator well formed, and the new
/// block overlaps nothing that was live.
proof fn lemma_carve(m: FreeListModel, i: int, size: int, align: int)
    requires
        m.wf(),
        0 <= i < m.free.len(),
        fits(m.free[i], size, align),
        align > 0,
        align % NODE_ALIGN as int == 0,
        size % NODE_ALIGN as int == 0,
        size >= NODE_SIZE as int,
    ensures
        m.carve(i, size, align).wf(),
        forall|b: Block|
            #[trigger] m.live.contains(b) ==> disjoint((align_up_spec(m.free[i].0, align), size), b),
        m.heap_start <= align_up_spec(m.free[i].0, align),
        align_up_spec(m.free[i].0, align) + size <= m.heap_end,
        (align_up_spec(m.free[i].0, align) + size) % NODE_ALIGN as int == 0,
{
    let r = m.free[i];
    let p = align_up_spec(r.0, align);
    let e = p + size;
    let blk: Block = (p, size);
    let rest = m.free.remove(i);
    let n = m.carve(i, size, align);
    lemma_align_up(r.0, align);
    lemma_multiple_of_divisor(p, align, NODE_ALIGN as int);
    assert(node_ok(blk));
    assert((p + size) % NODE_ALIGN as int == 0) by {
        vstd::arithmetic::div_mod::lemma_add_mod_noop(p, size, NODE_ALIGN as int);
    }
    assert(inside(blk, r));
    assert forall|b: Block| #[trigger] m.live.contains(b) implies disjoint(blk, b) by {
        assert(disjoint(m.free[i], b));
    }
    assert forall|k: int| 0 <= k < rest.len() implies (#[trigger] rest[k] == (if k < i {
        m.free[k]
    } else {
        m.free[k + 1]
    })) by {}
    if e < block_end(r) {
        let t: Block = (e, block_end(r) - e);
        assert(n.free == seq![t] + rest);
        assert(node_ok(t));
        assert forall|k: int| 0 <= k < n.free.len() implies (#[trigger] n.free[k] == (if k == 0 {
            t
        } else if k - 1 < i {
            m.free[k - 1]
        } else {
            m.free[k]
        })) by {}
        assert forall|x: int, y: int|
            0 <= x < n.free.len() && 0 <= y < n.free.len() && x != y implies disjoint(
            #[trigger] n.free[x],
            #[trigger] n.free[y],
        ) by {
            let ox = if x - 1 < i { x - 1 } else { x };
            let oy = if y - 1 < i { y - 1 } else { y };
            if x == 0 {
                assert(disjoint(m.free[oy], m.free[i]));
            } else if y == 0 {
                assert(disjoint(m.free[ox], m.free[i]));
            } else {
                assert(disjoint(m.free[ox], m.free[oy]));
            }
        }
        assert forall|x: int, b: Block|
            0 <= x < n.free.len() && #[trigger] n.live.contains(b) implies disjoint(
            #[trigger] n.free[x],
            b,
        ) by {
            let ox = if x - 1 < i { x - 1 } else { x };
            if b == blk {
                if x != 0 {
                    assert(disjoint(m.free[ox], m.free[i]));
                }
            } else {
                assert(m.live.contains(b));
                if x == 0 {
                    assert(disjoint(m.free[i], b));
                } else {
                    assert(disjoint(m.free[ox], b));
                }
            }
        }
    } else {
        assert(n.free == rest);
        assert forall|x: int, y: int|
            0 <= x < n.free.len() && 0 <= y < n.free.len() && x != y implies disjoint(
            #[trigger] n.free[x],
            #[trigger] n.free[y],
        ) by {
            let ox = if x < i { x } else { x + 1 };
            let oy = if y < i { y } else { y + 1 };
            assert(disjoint(m.free[ox], m.free[oy]));
        }
        assert forall|x: int, b: Block|
            0 <= x < n.free.len() && #[trigger] n.live.contains(b) implies disjoint(
            #[trigger] n.free[x],
            b,
        ) by {
            let ox = if x < i { x } else { x + 1 };
            if b == blk {
                assert(disjoint(m.free[ox], m.free[i]));
            } else {
                assert(m.live.contains(b));
                assert(disjoint(m.free[ox], b));
            }
        }
    }
    assert forall|a: Block, b: Block|
        #[trigger] n.live.contains(a) && #[trigger] n.live.contains(b) && a != b implies disjoint(
        a,
        b,
    ) by {
        if a != blk && b != blk {
            assert(m.live.contains(a) && m.live.contains(b));
        } else if a == blk {
            assert(m.live.contains(b));
        } else {
            assert(m.live.contains(a));
        }
    }
}

impl LinkedListAllocator {
    /// Creates an allocator with no memory to give out.
    pub fn new() -> (r: LinkedListAllocator)
        ensures
            r@ == (FreeListModel {
                free: Seq::empty(),
                live: Set::empty(),
                heap_start: 0,
                heap_end: 0,
            }),
            r@.wf(),
    {
        let r = LinkedListAllocator {
            regions: Vec::new(),
            live: Ghost(Set::empty()),
            heap: Ghost((0, 0)),
        };
        assert(r@.free =~= Seq::empty());
        r
    }

    /// Gives the allocator the heap `[heap_start, heap_start + heap_size)` as
    /// one free region. The range must be unused and the allocator fresh.
    pub fn init(&mut self, heap_start: u64, heap_size: u64)
        requires
            old(self)@.wf(),
            old(self)@.free.len() == 0,
            old(self)@.live.is_empty(),
            heap_start + heap_size <= u64::MAX,
            node_ok((heap_start as int, heap_size as int)),
        ensures
            final(self)@ == (FreeListModel {
                free: seq![(heap_start as int, heap_size as int)],
                live: Set::empty(),
                heap_start: heap_start as int,
                heap_end: heap_start + heap_size,
            }),
            final(self)@.wf(),
    {
        self.heap = Ghost((heap_start as int, heap_start + heap_size));
        self.add_free_region(heap_start, heap_size);
        assert(self@.free =~= seq![(heap_start as int, heap_size as int)]);
        assert(self@.live =~= Set::empty());
    }

    /// Puts the region `[addr, addr + size)` at the front of the list.
    fn add_free_region(&mut self, addr: u64, size: u64)
        requires
            node_ok((addr as int, size as int)),
        ensures
            final(self)@ == (FreeListModel {
                free: seq![(addr as int, size as int)] + old(self)@.free,
                ..old(self)@
            }),
    {
        let node = ListNode::new(addr, size);
        self.regions.insert(0, node);
        assert(self@.free =~= seq![(addr as int, size as int)] + old(self)@.free);
    }

    /// Finds the first free region that can serve `size` bytes aligned to
    /// `align`, takes it off the list and returns it with the block's start.
    fn find_region(&mut self, size: u64, align: u64) -> (r: Option<(ListNode, u64)>)
        requires
            old(self)@.wf(),
            align > 0,
        ensures
            r is None <==> forall|j: int|
                0 <= j < old(self)@.free.len() ==> !fits(#[trigger] old(self)@.free[j], size as int, align as int),
            r is None ==> final(self)@ == old(self)@,
            r matches Some((n, s)) ==> exists|i: int|
                {
                    &&& first_fit_at(old(self)@.free, i, size as int, align as int)
                    &&& n@ == old(self)@.free[i]
                    &&& s == align_up_spec(n@.0, align as int)
                    &&& final(self)@ == (FreeListModel { free: old(self)@.free.remove(i), ..old(self)@ })
                },
    {
        let ghost m = self@;
        let mut i: usize = 0;
        while i < self.regions.len()
            invariant
                self@ == m,
                m == old(self)@,
                m.wf(),
                align > 0,
                0 <= i <= m.free.len(),
                forall|j: int| 0 <= j < i ==> !fits(#[trigger] m.free[j], size as int, align as int),
            decreases m.free.len() - i,
        {
            assert(m.free[i as int] == self.regions@[i as int]@);
            match Self::alloc_from_region(&self.regions[i], size, align) {
                Ok(alloc_start) => {
                    assert(first_fit_at(m.free, i as int, size as int, align as int));
                    let node = self.regions.remove(i);
                    assert(self@.free =~= m.free.remove(i as int));
                    return Some((node, alloc_start));
                },
                Err(()) => {
                    i = i + 1;
                },
            }
        }
        None
    }

    /// Whether `region` can serve `size` bytes aligned to `align`; on success
    /// the start of the block.
    fn alloc_from_region(region: &ListNode, size: u64, align: u64) -> (r: Result<u64, ()>)
        requires
            align > 0,
            block_end(region@) <= u64::MAX,
        ensures
            r is Ok <==> fits(region@, size as int, align as int),
            r matches Ok(s) ==> s == align_up_spec(region@.0, align as int),
    {
        proof {
            lemma_align_up(region@.0, align as int);
        }
        let alloc_start = match align_up(region.start_addr(), align) {
            Some(s) => s,
            None => return Err(()),
        };
        let alloc_end = match alloc_start.checked_add(size) {
            Some(e) => e,
            None => return Err(()),
        };
        if alloc_end > region.end_addr() {
            return Err(());
        }
        let excess_size = region.end_addr() - alloc_end;
        if excess_size > 0 && excess_size < NODE_SIZE {
            return Err(());
        }
        Ok(alloc_start)
    }

    /// The size and alignment reserved for a request, so that the block can
    /// hold a list node once it is returned.
    pub fn size_align(size: u64, align: u64) -> (r: (u64, u64))
        requires
            layout_ok(size as int, align as int),
        ensures
            (r.0 as int, r.1 as int) == adjusted(size as int, align as int),
    {
        let a = if align > NODE_ALIGN {
            align
        } else {
            NODE_ALIGN
        };
        proof {
            lemma_align_up(size as int, a as int);
        }
        let padded = match align_up(size, a) {
            Some(p) => p,
            None => a,
        };
        let s = if padded > NODE_SIZE {
            padded
        } else {
            NODE_SIZE
        };
        (s, a)
    }

    /// Allocates `size` bytes aligned to `align` from the first free region
    /// that fits, or returns `None` when no region does.
    pub fn allocate(&mut self, size: u64, align: u64) -> (r: Option<u64>)
        requires
            old(self)@.wf(),
            size > 0,
            layout_ok(size as int, align as int),
        ensures
            final(self)@.wf(),
            final(self)@.heap_start == old(self)@.heap_start,
            final(self)@.heap_end == old(self)@.heap_end,
            old(self)@.alloc_result(size as int, align as int, r, final(self)@),
            r matches Some(p) ==> {
                &&& final(self)@.live.contains((p as int, adjusted(size as int, align as int).0))
                &&& forall|b: Block| #[trigger] old(self)@.live.contains(b)
                    ==> disjoint((p as int, adjusted(size as int, align as int).0), b)
            },
            r matches Some(p) ==> {
                &&& p as int % align as int == 0
                &&& old(self)@.heap_start <= p
                &&& p + size <= old(self)@.heap_end
            },
    {
        let ghost m = self@;
        let (sz, al) = Self::size_align(size, align);
        proof {
            lemma_power_of_two_positive(align as int);
            lemma_align_up(size as int, al as int);
            reveal_with_fuel(is_power_of_two, 4);
            assert(is_power_of_two(8));
            lemma_power_of_two_divides(NODE_ALIGN as int, al as int);
            lemma_multiple_of_divisor(align_up_spec(size as int, al as int), al as int, NODE_ALIGN as int);
        }
        match self.find_region(sz, al) {
            Some((region, alloc_start)) => {
                let ghost i = choose|i: int|
                    {
                        &&& first_fit_at(m.free, i, sz as int, al as int)
                        &&& region@ == m.free[i]
                        &&& alloc_start == align_up_spec(region@.0, al as int)
                        &&& self@ == (FreeListModel { free: m.free.remove(i), ..m })
                    };
                proof {
                    lemma_carve(m, i, sz as int, al as int);
                    lemma_align_up(region@.0, al as int);
                    lemma_power_of_two_divides(align as int, al as int);
                    lemma_multiple_of_divisor(alloc_start as int, al as int, align as int);
                }
                let alloc_end = alloc_start + sz;
                let excess_size = region.end_addr() - alloc_end;
                if excess_size > 0 {
                    self.add_free_region(alloc_end, excess_size);
                }
                self.live = Ghost(self.live@.insert((alloc_start as int, sz as int)));
                assert(self@ == m.carve(i, sz as int, al as int));
                Some(alloc_start)
            },
            None => None,
        }
    }

    /// Returns the block at `ptr` that an allocation of `size` bytes aligned
    /// to `align` handed out: it goes to the front of the free list.
    pub fn deallocate(&mut self, ptr: u64, size: u64, align: u64)
        requires
            old(self)@.wf(),
            layout_ok(size as int, align as int),
            old(self)@.live.contains((ptr as int, adjusted(size as int, align as int).0)),
        ensures
            final(self)@.wf(),
            final(self)@ == (FreeListModel {
                free: seq![(ptr as int, adjusted(size as int, align as int).0)] + old(self)@.free,
                live: old(self)@.live.remove((ptr as int, adjusted(size as int, align as int).0)),
                ..old(self)@
            }),
    {
        let (sz, _al) = Self::size_align(size, align);
        proof {
            lemma_release(self@, (ptr as int, sz as int));
        }
        self.add_free_region(ptr, sz);
        self.live = Ghost(self.live@.remove((ptr as int, sz as int)));
    }
}

/// Any two different blocks that the allocator has handed out and that are
/// not yet returned are disjoint.
pub proof fn lemma_live_blocks_disjoint(m: FreeListModel, a: Block, b: Block)
    requires
        m.wf(),
        m.live.contains(a),
        m.live.contains(b),
        a != b,
    ensures
        disjoint(a, b),
{
}

} // verus!
