//! Physical frame allocation from the firmware memory map, and translation of
//! virtual addresses by walking the four-level page tables.
use std::collections::HashMap;
use vstd::prelude::*;

verus! {

broadcast use vstd::std_specs::hash::group_hash_axioms;

/// Size of a page and of a physical frame.
pub const PAGE_SIZE: u64 = 4096;

/// One region of the firmware memory map: `[start, end)`, and whether it is
/// free for the kernel to use.
#[derive(Clone, Copy, Debug, PartialEq, Eq)]
pub struct MemoryRegion {
    pub start: u64,
    pub end: u64,
    pub usable: bool,
}

/// The first frame boundary at or above `start`.
pub open spec fn first_frame(r: MemoryRegion) -> int {
    if r.start as int % 4096 == 0 {
        r.start as int
    } else {
        r.start as int + (4096 - r.start as int % 4096)
    }
}

/// How many whole frames the region offers to the frame allocator: none for
/// a region that is not usable.
pub open spec fn frame_count(r: MemoryRegion) -> int {
    if r.usable && first_frame(r) + 4096 <= r.end {
        (r.end - first_frame(r)) / 4096
    } else {
        0
    }
}

/// The `n`-th usable frame of the memory map, counting the whole frames of
/// the usable regions in map order, or `None` when there are not that many.
pub open spec fn nth_frame(regions: Seq<MemoryRegion>, n: int) -> Option<int>
    decreases regions.len(),
{
    if regions.len() == 0 || n < 0 {
        None
    } else if n < frame_count(regions[0]) {
        Some(first_frame(regions[0]) + n * 4096)
    } else {
        nth_frame(regions.drop_first(), n - frame_count(regions[0]))
    }
}

/// Every frame that `nth_frame` gives is frame aligned and lies inside a
/// usable region of the map.
pub proof fn lemma_nth_frame_usable(regions: Seq<MemoryRegion>, n: int)
    requires
        nth_frame(regions, n) is Some,
    ensures
        nth_frame(regions, n)->0 % 4096 == 0,
        exists|i: int|
            0 <= i < regions.len() && (#[trigger] regions[i]).usable && regions[i].start
                <= nth_frame(regions, n)->0 && nth_frame(regions, n)->0 + 4096 <= regions[i].end,
    decreases regions.len(),
{
    let r = regions[0];
    if n < frame_count(r) {
        let f = first_frame(r) + n * 4096;
        crate::allocator::lemma_align_up(r.start as int, 4096);
        assert(f % 4096 == 0) by {
            vstd::arithmetic::div_mod::lemma_mod_multiples_vanish(n, first_frame(r), 4096);
        }
        assert(f + 4096 <= r.end) by (nonlinear_arith)
            requires
                0 <= n < (r.end - first_frame(r)) / 4096,
                f == first_frame(r) + n * 4096,
        ;
        assert(regions[0].usable && regions[0].start <= f && f + 4096 <= regions[0].end);
    } else {
        lemma_nth_frame_usable(regions.drop_first(), n - frame_count(r));
        let i = choose|i: int|
            0 <= i < regions.drop_first().len() && (#[trigger] regions.drop_first()[i]).usable
                && regions.drop_first()[i].start <= nth_frame(regions, n)->0 && nth_frame(regions, n)->0
                + 4096 <= regions.drop_first()[i].end;
        assert(regions[i + 1] == regions.drop_first()[i]);
    }
}

/// Hands out the usable frames of the memory map one at a time, in map
/// order. Frames are never given back.
pub struct BootInfoFrameAllocator {
    memory_map: Vec<MemoryRegion>,
    next: u64,
}

impl BootInfoFrameAllocator {
    /// The memory map the frames are drawn from.
    pub closed spec fn regions(&self) -> Seq<MemoryRegion> {
        self.memory_map@
    }

    /// How many frames have been handed out.
    pub closed spec fn handed_out(&self) -> int {
        self.next as int
    }

    /// Creates a frame allocator over `memory_map` that has handed out nothing.
    pub fn init(memory_map: Vec<MemoryRegion>) -> (r: BootInfoFrameAllocator)
        ensures
            r.regions() == memory_map@,
            r.handed_out() == 0,
    {
        BootInfoFrameAllocator { memory_map, next: 0 }
    }

    /// Returns the next usable frame: the `n`-th on the `n`-th call, `None`
    /// once the usable memory is used up (or the call count no longer fits a
    /// `u64`).
    pub fn allocate_frame(&mut self) -> (r: Option<u64>)
        ensures
            final(self).regions() == old(self).regions(),
            r == (match nth_frame(old(self).regions(), old(self).handed_out()) {
                Some(f) => if old(self).handed_out() < u64::MAX { Some(f as u64) } else { None::<u64> },
                None => None::<u64>,
            }),
            final(self).handed_out() == old(self).handed_out() + (if r is Some { 1int } else { 0int }),
            r is None <==> (old(self).handed_out() == u64::MAX || nth_frame(old(self).regions(), old(self).handed_out()) is None),
            r matches Some(f) ==> f as int % 4096 == 0 && nth_frame(old(self).regions(), old(self).handed_out()) == Some(f as int),
    {
        if self.next == u64::MAX {
            return None;
        }
        let r = nth_usable_frame(&self.memory_map, self.next);
        if r.is_some() {
            proof {
                lemma_nth_frame_usable(self.memory_map@, self.next as int);
            }
            self.next = self.next + 1;
        }
        r
    }
}

/// The first frame boundary at or above the region's start, if it fits.
fn region_first_frame(r: &MemoryRegion) -> (f: Option<u64>)
    ensures
        f == (if first_frame(*r) <= u64::MAX {
            Some(first_frame(*r) as u64)
        } else {
            None::<u64>
        }),
{
    let rem = r.start % PAGE_SIZE;
    if rem == 0 {
        Some(r.start)
    } else {
        r.start.checked_add(PAGE_SIZE - rem)
    }
}

/// The `n`-th usable frame of `regions`.
pub fn nth_usable_frame(regions: &Vec<MemoryRegion>, n: u64) -> (r: Option<u64>)
    ensures
        r == (match nth_frame(regions@, n as int) {
            Some(f) => Some(f as u64),
            None => None::<u64>,
        }),
{
    let mut i: usize = 0;
    let mut rem: u64 = n;
    assert(regions@.subrange(0, regions@.len() as int) =~= regions@);
    while i < regions.len()
        invariant
            0 <= i <= regions@.len(),
            nth_frame(regions@, n as int) == nth_frame(regions@.subrange(i as int, regions@.len() as int), rem as int),
        decreases regions@.len() - i,
    {
        let ghost rest = regions@.subrange(i as int, regions@.len() as int);
        assert(rest[0] == regions@[i as int]);
        assert(rest.drop_first() =~= regions@.subrange(i + 1, regions@.len() as int));
        let r = &regions[i];
        let mut count: u64 = 0;
        if r.usable {
            if let Some(first) = region_first_frame(r) {
                if first <= r.end && r.end - first >= PAGE_SIZE {
                    count = (r.end - first) / PAGE_SIZE;
                }
            }
        }
        assert(count == frame_count(*r));
        if rem < count {
            let first = region_first_frame(r).unwrap();
            proof {
                assert(rem * 4096 < r.end - first) by (nonlinear_arith)
                    requires
                        rem < (r.end - first) / 4096,
                ;
            }
            return Some(first + rem * PAGE_SIZE);
        }
        rem = rem - count;
        i = i + 1;
    }
    None
}

/// Bit of a page-table entry: the entry maps something.
pub const PRESENT: u64 = 0x1;

/// Bit of a page-table entry: the mapping may be written.
pub const WRITABLE: u64 = 0x2;

/// Bit of a page-table entry: the entry maps a huge page, not a table.
pub const HUGE_PAGE: u64 = 0x80;

/// Bits of a page-table entry that hold the physical address.
pub const ADDRESS_MASK: u64 = 0x000f_ffff_ffff_f000;

/// Entries per page table.
pub const ENTRY_COUNT: usize = 512;

/// The entry has the present bit.
pub open spec fn is_present(e: u64) -> bool {
    e & PRESENT != 0
}

/// The entry has the huge-page bit.
pub open spec fn is_huge(e: u64) -> bool {
    e & HUGE_PAGE != 0
}

/// The physical frame an entry points to.
pub open spec fn entry_frame(e: u64) -> u64 {
    e & ADDRESS_MASK
}

/// The 9-bit index of `addr` into the page table of level `level` (4 is the
/// root, 1 the last level).
pub open spec fn table_index(addr: u64, level: int) -> int {
    if level >= 4 {
        ((addr >> 39u64) & 0x1ffu64) as int
    } else if level == 3 {
        ((addr >> 30u64) & 0x1ffu64) as int
    } else if level == 2 {
        ((addr >> 21u64) & 0x1ffu64) as int
    } else {
        ((addr >> 12u64) & 0x1ffu64) as int
    }
}

/// The offset of `addr` inside its 4 KiB page.
pub open spec fn page_offset_of(addr: u64) -> int {
    (addr & 0xfffu64) as int
}

/// Where a walk of the page tables ends.
pub ghost enum Walk {
    /// An entry on the path is not present.
    NotPresent,
    /// An entry on the path maps a huge page.
    Huge,
    /// The path ends in this 4 KiB frame.
    Frame(u64),
}

/// The entry `index` of the table held in `frame`. Memory that holds no
/// known table reads as zero.
pub open spec fn entry_at(tables: Map<u64, Seq<u64>>, frame: u64, index: int) -> u64 {
    if tables.contains_key(frame) && 0 <= index < tables[frame].len() {
        tables[frame][index]
    } else {
        0
    }
}

/// The walk for `addr` from the table of level `level` held in `frame`.
pub open spec fn walk(tables: Map<u64, Seq<u64>>, frame: u64, addr: u64, level: nat) -> Walk
    decreases level,
{
    if level == 0 {
        Walk::Frame(frame)
    } else {
        let e = entry_at(tables, frame, table_index(addr, level as int));
        if !is_present(e) {
            Walk::NotPresent
        } else if is_huge(e) {
            Walk::Huge
        } else {
            walk(tables, entry_frame(e), addr, (level - 1) as nat)
        }
    }
}

/// Relies on x86_64's `VirtAddr::p4_index`: bits 39 to 47 of the address.
#[verifier::external_body]
fn p4_index(addr: u64) -> (r: u16)
    ensures
        r as int == table_index(addr, 4),
{
    u16::from(x86_64::VirtAddr::new_truncate(addr).p4_index())
}

/// Relies on x86_64's `VirtAddr::p3_index`: bits 30 to 38 of the address.
#[verifier::external_body]
fn p3_index(addr: u64) -> (r: u16)
    ensures
        r as int == table_index(addr, 3),
{
    u16::from(x86_64::VirtAddr::new_truncate(addr).p3_index())
}

/// Relies on x86_64's `VirtAddr::p2_index`: bits 21 to 29 of the address.
#[verifier::external_body]
fn p2_index(addr: u64) -> (r: u16)
    ensures
        r as int == table_index(addr, 2),
{
    u16::from(x86_64::VirtAddr::new_truncate(addr).p2_index())
}

/// Relies on x86_64's `VirtAddr::p1_index`: bits 12 to 20 of the address.
#[verifier::external_body]
fn p1_index(addr: u64) -> (r: u16)
    ensures
        r as int == table_index(addr, 1),
{
    u16::from(x86_64::VirtAddr::new_truncate(addr).p1_index())
}

/// Relies on x86_64's `VirtAddr::page_offset`: the low 12 bits of the address.
#[verifier::external_body]
fn page_offset(addr: u64) -> (r: u64)
    ensures
        r as int == page_offset_of(addr),
{
    u64::from(x86_64::VirtAddr::new_truncate(addr).page_offset())
}

/// The abstract page tables: the root table's frame and the table held in
/// each frame that holds one.
pub ghost struct PageTablesModel {
    pub root: u64,
    pub tables: Map<u64, Seq<u64>>,
}

/// The page tables as the walk sees them: the root frame (what the CPU's
/// page-table base register holds) and the contents of the table frames.
pub struct PageTables {
    root: u64,
    tables: HashMap<u64, Vec<u64>>,
}

impl View for PageTables {
    type V = PageTablesModel;

    closed spec fn view(&self) -> PageTablesModel {
        PageTablesModel { root: self.root, tables: self.tables@.map_values(|t: Vec<u64>| t@) }
    }
}

impl PageTables {
    /// Page tables whose root is held in frame `root`, with no table known yet.
    pub fn new(root: u64) -> (r: PageTables)
        ensures
            r@.root == root,
            r@.tables == Map::<u64, Seq<u64>>::empty(),
    {
        let r = PageTables { root, tables: HashMap::new() };
        assert(r@.tables =~= Map::<u64, Seq<u64>>::empty());
        r
    }

    /// Records the contents of the table held in `frame`.
    pub fn set_table(&mut self, frame: u64, entries: Vec<u64>)
        ensures
            final(self)@.root == old(self)@.root,
            final(self)@.tables == old(self)@.tables.insert(frame, entries@),
    {
        let ghost e = entries@;
        self.tables.insert(frame, entries);
        assert(self@.tables =~= old(self)@.tables.insert(frame, e));
    }

    /// The entry `index` of the table held in `frame`, zero where no table is known.
    fn entry(&self, frame: u64, index: u16) -> (r: u64)
        ensures
            r == entry_at(self@.tables, frame, index as int),
    {
        match self.tables.get(&frame) {
            Some(t) => {
                if (index as usize) < t.len() {
                    t[index as usize]
                } else {
                    0
                }
            },
            None => 0,
        }
    }
}

/// One step of a page-table walk.
#[derive(Clone, Copy, Debug, PartialEq, Eq)]
pub enum WalkStep {
    /// The entry points to the next table (or, at level 1, to the page's frame).
    Next(u64),
    /// The entry is not present.
    NotPresent,
    /// The entry maps a huge page.
    Huge,
}

/// Reads the entry for `addr` in the table of level `level` held in `frame`.
pub fn walk_step(tables: &PageTables, frame: u64, addr: u64, level: u8) -> (r: WalkStep)
    requires
        1 <= level <= 4,
    ensures
        ({
            let e = entry_at(tables@.tables, frame, table_index(addr, level as int));
            r == (if !is_present(e) {
                WalkStep::NotPresent
            } else if is_huge(e) {
                WalkStep::Huge
            } else {
                WalkStep::Next(entry_frame(e))
            })
        }),
{
    let index = if level == 4 {
        p4_index(addr)
    } else if level == 3 {
        p3_index(addr)
    } else if level == 2 {
        p2_index(addr)
    } else {
        p1_index(addr)
    };
    let entry = tables.entry(frame, index);
    if entry & PRESENT == 0 {
        WalkStep::NotPresent
    } else if entry & HUGE_PAGE != 0 {
        WalkStep::Huge
    } else {
        WalkStep::Next(entry & ADDRESS_MASK)
    }
}

/// The root frame of the page tables.
pub fn root_frame(tables: &PageTables) -> (r: u64)
    ensures
        r == tables@.root,
{
    tables.root
}

/// Translates the virtual address `addr` to the physical address it maps to
/// by walking the four levels from the root: `None` exactly when an entry on
/// the path is not present. Huge pages are not supported.
pub fn translate_addr(tables: &PageTables, addr: u64) -> (r: Option<u64>)
    requires
        !(walk(tables@.tables, tables@.root, addr, 4) is Huge),
    ensures
        r is None <==> walk(tables@.tables, tables@.root, addr, 4) is NotPresent,
        walk(tables@.tables, tables@.root, addr, 4) matches Walk::Frame(f) ==> (r matches Some(p) && p
            == f + page_offset_of(addr)),
{
    let ghost target = walk(tables@.tables, tables@.root, addr, 4);
    let mut frame = tables.root;
    let mut level: u8 = 4;
    while level > 0
        invariant
            level <= 4,
            target == walk(tables@.tables, tables@.root, addr, 4),
            target == walk(tables@.tables, frame, addr, level as nat),
            !(target is Huge),
            level < 4 ==> frame & ADDRESS_MASK == frame,
        decreases level,
    {
        let ghost e = entry_at(tables@.tables, frame, table_index(addr, level as int));
        match walk_step(tables, frame, addr, level) {
            WalkStep::Next(next) => {
                assert(next & ADDRESS_MASK == next) by (bit_vector)
                    requires
                        next == e & 0x000f_ffff_ffff_f000u64,
                ;
                frame = next;
            },
            _ => {
                return None;
            },
        }
        level = level - 1;
    }
    assert(walk(tables@.tables, frame, addr, 0) == Walk::Frame(frame));
    let offset = page_offset(addr);
    assert(frame + offset <= u64::MAX) by (bit_vector)
        requires
            frame & 0x000f_ffff_ffff_f000u64 == frame,
            offset == addr & 0xfffu64,
    ;
    Some(frame + offset)
}

} // verus!
