//! Fixed-size block allocator: one list of free blocks per power-of-two size
//! class, with the free-list allocator behind it for new blocks and for
//! requests larger than the largest class.
use vstd::prelude::*;

use super::is_power_of_two;
use super::lemma_multiple_of_divisor;
use super::lemma_power_of_two_divides;
use super::lemma_power_of_two_positive;
use super::linked_list::{adjusted, layout_ok, FreeListModel, LinkedListAllocator};

verus! {

/// Number of size classes.
pub const CLASS_COUNT: usize = 8;

/// The block size of class `i`: 16, 32, ..., 2048 bytes.
pub open spec fn class_size(i: int) -> int
    decreases i,
{
    if i <= 0 {
        16
    } else {
        2 * class_size(i - 1)
    }
}

/// Facts about the class sizes.
proof fn lemma_class_size(i: int)
    requires
        0 <= i < CLASS_COUNT as int,
    ensures
        is_power_of_two(class_size(i)),
        16 <= class_size(i) <= 2048,
        forall|j: int| 0 <= j < i ==> class_size(j) < class_size(i),
    decreases i,
{
    reveal_with_fuel(is_power_of_two, 13);
    reveal_with_fuel(class_size, 9);
    if i > 0 {
        lemma_class_size(i - 1);
    }
}

/// The larger of a request's size and alignment: the block size it needs.
pub open spec fn required_block_size(size: int, align: int) -> int {
    if size > align {
        size
    } else {
        align
    }
}

/// The first class from `i` on whose blocks hold `need` bytes.
pub open spec fn first_class_from(i: int, need: int) -> Option<int>
    decreases CLASS_COUNT - i,
{
    if i < 0 || i >= CLASS_COUNT {
        None
    } else if class_size(i) >= need {
        Some(i)
    } else {
        first_class_from(i + 1, need)
    }
}

/// The class that serves a request: the smallest whose blocks are at least
/// the required size, or `None` when the request is larger than every class.
pub open spec fn class_of(size: int, align: int) -> Option<int> {
    first_class_from(0, required_block_size(size, align))
}

/// The class chosen for a request holds the request's size and alignment.
proof fn lemma_class_of(i: int, need: int)
    requires
        0 <= i,
        first_class_from(i, need) is Some,
    ensures
        0 <= first_class_from(i, need)->0 < CLASS_COUNT,
        class_size(first_class_from(i, need)->0) >= need,
    decreases CLASS_COUNT - i,
{
    if i < CLASS_COUNT && class_size(i) < need {
        lemma_class_of(i + 1, need);
    }
}

/// The block size of class `index`.
pub fn block_size(index: usize) -> (r: u64)
    requires
        index < CLASS_COUNT,
    ensures
        r == class_size(index as int),
{
    reveal_with_fuel(class_size, 9);
    match index {
        0 => 16,
        1 => 32,
        2 => 64,
        3 => 128,
        4 => 256,
        5 => 512,
        6 => 1024,
        _ => 2048,
    }
}

/// Chooses the class for a request of `size` bytes aligned to `align`.
pub fn list_index(size: u64, align: u64) -> (r: Option<usize>)
    ensures
        r matches Some(i) ==> class_of(size as int, align as int) == Some(i as int),
        r is None <==> class_of(size as int, align as int) is None,
{
    let required = if size > align {
        size
    } else {
        align
    };
    let ghost need = required_block_size(size as int, align as int);
    let mut i: usize = 0;
    while i < CLASS_COUNT
        invariant
            0 <= i <= CLASS_COUNT,
            required == need,
            class_of(size as int, align as int) == first_class_from(i as int, need),
        decreases CLASS_COUNT - i,
    {
        if block_size(i) >= required {
            return Some(i);
        }
        i = i + 1;
    }
    None
}

/// The abstract state of a fixed-size block allocator: the free blocks of
/// each class in list order (the last one is the head), and the fallback.
pub ghost struct FixedBlockModel {
    pub lists: Seq<Seq<int>>,
    pub fallback: FreeListModel,
}

impl FixedBlockModel {
    /// The fallback is well formed, and every free block of a class is
    /// aligned to its size and lies in the heap.
    pub open spec fn wf(self) -> bool {
        &&& self.lists.len() == CLASS_COUNT
        &&& self.fallback.wf()
        &&& forall|i: int, k: int|
            0 <= i < CLASS_COUNT && 0 <= k < self.lists[i].len() ==> self.block_ok(
                i,
                #[trigger] self.lists[i][k],
            )
    }

    /// `p` may sit on the list of class `i`.
    pub open spec fn block_ok(self, i: int, p: int) -> bool {
        &&& p % class_size(i) == 0
        &&& self.fallback.heap_start <= p
        &&& p + class_size(i) <= self.fallback.heap_end
    }
}

/// An allocator that rounds each request up to a size class and keeps the
/// returned blocks of each class on a list for reuse.
pub struct FixedSizeBlockAllocator {
    list_heads: Vec<Vec<u64>>,
    fallback_allocator: LinkedListAllocator,
}

impl View for FixedSizeBlockAllocator {
    type V = FixedBlockModel;

    closed spec fn view(&self) -> FixedBlockModel {
        FixedBlockModel {
            lists: self.list_heads@.map_values(|l: Vec<u64>| l@.map_values(|p: u64| p as int)),
            fallback: self.fallback_allocator@,
        }
    }
}

impl FixedSizeBlockAllocator {
    /// Creates an allocator with empty class lists and an empty fallback.
    pub fn new() -> (r: FixedSizeBlockAllocator)
        ensures
            r@.wf(),
            forall|i: int| 0 <= i < CLASS_COUNT ==> (#[trigger] r@.lists[i]).len() == 0,
            r@.fallback == (FreeListModel {
                free: Seq::empty(),
                live: Set::empty(),
                heap_start: 0,
                heap_end: 0,
            }),
    {
        let mut list_heads: Vec<Vec<u64>> = Vec::new();
        let mut i: usize = 0;
        while i < CLASS_COUNT
            invariant
                i <= CLASS_COUNT,
                list_heads@.len() == i,
                forall|k: int| 0 <= k < i ==> (#[trigger] list_heads@[k])@.len() == 0,
            decreases CLASS_COUNT - i,
        {
            list_heads.push(Vec::new());
            i = i + 1;
        }
        let r = FixedSizeBlockAllocator { list_heads, fallback_allocator: LinkedListAllocator::new() };
        assert forall|i: int| 0 <= i < CLASS_COUNT implies (#[trigger] r@.lists[i]).len() == 0 by {
            assert(r@.lists[i] == list_heads@[i]@.map_values(|p: u64| p as int));
        }
        r
    }

    /// Hands the heap `[heap_start, heap_start + heap_size)` to the fallback.
    /// The range must be unused and the allocator fresh.
    pub fn init(&mut self, heap_start: u64, heap_size: u64)
        requires
            old(self)@.wf(),
            old(self)@.fallback.free.len() == 0,
            old(self)@.fallback.live.is_empty(),
            forall|i: int| 0 <= i < CLASS_COUNT ==> (#[trigger] old(self)@.lists[i]).len() == 0,
            heap_start + heap_size <= u64::MAX,
            heap_start % 8 == 0,
            heap_size >= 16,
        ensures
            final(self)@.wf(),
            final(self)@.lists == old(self)@.lists,
            final(self)@.fallback == (FreeListModel {
                free: seq![(heap_start as int, heap_size as int)],
                live: Set::empty(),
                heap_start: heap_start as int,
                heap_end: heap_start + heap_size,
            }),
    {
        self.fallback_allocator.init(heap_start, heap_size);
    }

    /// Allocates from the fallback, `None` when it has no room.
    fn fallback_alloc(&mut self, size: u64, align: u64) -> (r: Option<u64>)
        requires
            old(self)@.wf(),
            size > 0,
            layout_ok(size as int, align as int),
        ensures
            final(self)@.wf(),
            final(self)@.lists == old(self)@.lists,
            final(self)@.fallback.heap_start == old(self)@.fallback.heap_start,
            final(self)@.fallback.heap_end == old(self)@.fallback.heap_end,
            old(self)@.fallback.alloc_result(size as int, align as int, r, final(self)@.fallback),
            r matches Some(p) ==> {
                &&& p as int % align as int == 0
                &&& old(self)@.fallback.heap_start <= p
                &&& p + size <= old(self)@.fallback.heap_end
            },
    {
        let r = self.fallback_allocator.allocate(size, align);
        assert forall|i: int, k: int|
            0 <= i < CLASS_COUNT && 0 <= k < self@.lists[i].len() implies self@.block_ok(
            i,
            #[trigger] self@.lists[i][k],
        ) by {
            assert(old(self)@.block_ok(i, old(self)@.lists[i][k]));
        }
        r
    }

    /// Allocates `size` bytes aligned to `align`. A request that fits a class
    /// takes the most recently returned block of that class, or a new block
    /// of the class size from the fallback when the list is empty; a larger
    /// request goes to the fallback as it is.
    pub fn allocate(&mut self, size: u64, align: u64) -> (r: Option<u64>)
        requires
            old(self)@.wf(),
            size > 0,
            layout_ok(size as int, align as int),
        ensures
            final(self)@.wf(),
            final(self)@.fallback.heap_start == old(self)@.fallback.heap_start,
            final(self)@.fallback.heap_end == old(self)@.fallback.heap_end,
            match class_of(size as int, align as int) {
                Some(i) => if old(self)@.lists[i].len() > 0 {
                    &&& r matches Some(p) && p as int == old(self)@.lists[i].last()
                    &&& final(self)@ == (FixedBlockModel {
                        lists: old(self)@.lists.update(i, old(self)@.lists[i].drop_last()),
                        ..old(self)@
                    })
                } else {
                    &&& final(self)@.lists == old(self)@.lists
                    &&& old(self)@.fallback.alloc_result(class_size(i), class_size(i), r, final(self)@.fallback)
                },
                None => {
                    &&& final(self)@.lists == old(self)@.lists
                    &&& old(self)@.fallback.alloc_result(size as int, align as int, r, final(self)@.fallback)
                },
            },
            r matches Some(p) ==> {
                &&& p as int % align as int == 0
                &&& old(self)@.fallback.heap_start <= p
                &&& p + size <= old(self)@.fallback.heap_end
            },
    {
        let ghost m = self@;
        match list_index(size, align) {
            Some(index) => {
                proof {
                    lemma_class_of(0, required_block_size(size as int, align as int));
                    lemma_class_size(index as int);
                    lemma_power_of_two_positive(align as int);
                    lemma_power_of_two_divides(align as int, class_size(index as int));
                }
                let ghost heads = self.list_heads@;
                let ghost before = self.list_heads@[index as int]@;
                let popped = self.list_heads[index].pop();
                proof {
                    assert forall|i: int| 0 <= i < CLASS_COUNT && i != index as int implies
                        #[trigger] self@.lists[i] == m.lists[i] by {
                        assert(self.list_heads@[i] == heads[i]);
                    }
                }
                match popped {
                    Some(node) => {
                        proof {
                            assert(m.lists[index as int] == before.map_values(|p: u64| p as int));
                            assert(m.block_ok(index as int, m.lists[index as int][before.len() - 1]));
                            lemma_multiple_of_divisor(node as int, class_size(index as int), align as int);
                            assert(self@.lists[index as int] =~= m.lists[index as int].drop_last());
                            assert(self@.lists =~= m.lists.update(index as int, m.lists[index as int].drop_last()));
                            assert forall|i: int, k: int|
                                0 <= i < CLASS_COUNT && 0 <= k < self@.lists[i].len() implies self@.block_ok(
                                i,
                                #[trigger] self@.lists[i][k],
                            ) by {
                                assert(m.block_ok(i, m.lists[i][k]));
                            }
                        }
                        Some(node)
                    },
                    None => {
                        proof {
                            assert(self@.lists[index as int] =~= m.lists[index as int]);
                            assert(self@.lists =~= m.lists);
                            assert(self@ == m);
                        }
                        let block_size = block_size(index);
                        let r = self.fallback_alloc(block_size, block_size);
                        proof {
                            if let Some(p) = r {
                                lemma_multiple_of_divisor(p as int, class_size(index as int), align as int);
                            }
                        }
                        r
                    },
                }
            },
            None => self.fallback_alloc(size, align),
        }
    }

    /// Returns the block at `ptr` that an allocation of `size` bytes aligned
    /// to `align` handed out. A block of a class goes to the head of that
    /// class's list; a larger one goes back to the fallback.
    pub fn deallocate(&mut self, ptr: u64, size: u64, align: u64)
        requires
            old(self)@.wf(),
            layout_ok(size as int, align as int),
            match class_of(size as int, align as int) {
                Some(i) => old(self)@.block_ok(i, ptr as int),
                None => old(self)@.fallback.live.contains((ptr as int, adjusted(size as int, align as int).0)),
            },
        ensures
            final(self)@.wf(),
            match class_of(size as int, align as int) {
                Some(i) => final(self)@ == (FixedBlockModel {
                    lists: old(self)@.lists.update(i, old(self)@.lists[i].push(ptr as int)),
                    ..old(self)@
                }),
                None => {
                    &&& final(self)@.lists == old(self)@.lists
                    &&& final(self)@.fallback == (FreeListModel {
                        free: seq![(ptr as int, adjusted(size as int, align as int).0)] + old(self)@.fallback.free,
                        live: old(self)@.fallback.live.remove((ptr as int, adjusted(size as int, align as int).0)),
                        ..old(self)@.fallback
                    })
                },
            },
    {
        let ghost m = self@;
        match list_index(size, align) {
            Some(index) => {
                proof {
                    lemma_class_of(0, required_block_size(size as int, align as int));
                }
                let ghost heads = self.list_heads@;
                self.list_heads[index].push(ptr);
                proof {
                    assert forall|i: int| 0 <= i < CLASS_COUNT && i != index as int implies
                        #[trigger] self@.lists[i] == m.lists[i] by {
                        assert(self.list_heads@[i] == heads[i]);
                    }
                    assert(self@.lists[index as int] =~= m.lists[index as int].push(ptr as int));
                    assert(self@.lists =~= m.lists.update(index as int, m.lists[index as int].push(ptr as int)));
                    assert forall|i: int, k: int|
                        0 <= i < CLASS_COUNT && 0 <= k < self@.lists[i].len() implies self@.block_ok(
                        i,
                        #[trigger] self@.lists[i][k],
                    ) by {
                        if i != index as int || k < m.lists[i].len() {
                            assert(m.block_ok(i, m.lists[i][k]));
                        }
                    }
                }
            },
            None => {
                self.fallback_allocator.deallocate(ptr, size, align);
                proof {
                    assert forall|i: int, k: int|
                        0 <= i < CLASS_COUNT && 0 <= k < self@.lists[i].len() implies self@.block_ok(
                        i,
                        #[trigger] self@.lists[i][k],
                    ) by {
                        assert(m.block_ok(i, m.lists[i][k]));
                    }
                }
            },
        }
    }
}

} // verus!
