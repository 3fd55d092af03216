//! The physical frame allocator over the memory map the bootloader reports:
//! it hands out the usable frames one after another, in map order, and never
//! takes one back.
use vstd::prelude::*;
use crate::addr::{containing_frame_start, frame_start, lemma_frame_start, PAGE_SIZE, PHYS_ADDR_LIMIT};

verus! {

/// The kind of a memory region, as the bootloader reports it.
#[derive(Debug, Clone, Copy, PartialEq, Eq, Structural)]
pub enum MemoryRegionKind {
    /// Unused conventional memory, free for the kernel.
    Usable,
    /// Memory the bootloader mapped (page tables, boot info).
    Bootloader,
    /// A region the UEFI firmware reported, with its memory type tag.
    UnknownUefi(u32),
    /// A region the BIOS reported, with its E820 memory type.
    UnknownBios(u32),
}

/// A physical memory region `[start, end)` of the boot memory map.
#[derive(Debug, Clone, Copy, PartialEq, Eq, Structural)]
pub struct MemoryRegion {
    pub start: u64,
    pub end: u64,
    pub kind: MemoryRegionKind,
}

/// How many addresses `start, start + 4096, ...` lie below `end`.
pub open spec fn frame_count(r: MemoryRegion) -> nat {
    if r.start < r.end {
        let d = (r.end - r.start) as nat;
        (d / 4096 + if d % 4096 == 0 { 0nat } else { 1nat }) as nat
    } else {
        0
    }
}

/// The addresses a usable region contributes: its start, stepped by 4 KiB,
/// below its end.
pub open spec fn region_frame_addrs(r: MemoryRegion) -> Seq<u64> {
    Seq::new(frame_count(r), |k: int| (r.start + 4096 * k) as u64)
}

/// The addresses of all usable regions, in map order.
pub open spec fn usable_frame_addrs(regions: Seq<MemoryRegion>) -> Seq<u64>
    decreases regions.len(),
{
    if regions.len() == 0 {
        Seq::empty()
    } else {
        let head = if regions[0].kind is Usable {
            region_frame_addrs(regions[0])
        } else {
            Seq::empty()
        };
        head + usable_frame_addrs(regions.drop_first())
    }
}

/// The frame handed out for allocation number `n`: the frame holding the
/// `n`-th usable address, or `None` once they are used up.
pub open spec fn nth_frame(regions: Seq<MemoryRegion>, n: int) -> Option<u64> {
    if 0 <= n < usable_frame_addrs(regions).len() {
        Some(frame_start(usable_frame_addrs(regions)[n]))
    } else {
        None
    }
}

proof fn lemma_usable_frame_addrs_split(regions: Seq<MemoryRegion>, i: int)
    requires
        0 <= i < regions.len(),
    ensures
        usable_frame_addrs(regions.subrange(i, regions.len() as int)) == (if regions[i].kind is Usable {
            region_frame_addrs(regions[i])
        } else {
            Seq::empty()
        }) + usable_frame_addrs(regions.subrange(i + 1, regions.len() as int)),
{
    let rest = regions.subrange(i, regions.len() as int);
    assert(rest.drop_first() =~= regions.subrange(i + 1, regions.len() as int));
}

proof fn lemma_offset_in_region(d: int, k: int)
    requires
        0 < d,
        0 <= k,
        k < d / 4096 + (if d % 4096 == 0 { 0int } else { 1int }),
    ensures
        4096 * k < d,
{
    assert(4096 * k < d) by (nonlinear_arith)
        requires
            0 < d,
            0 <= k,
            k < d / 4096 + (if d % 4096 == 0 { 0int } else { 1int }),
    {
        assert(d == 4096 * (d / 4096) + d % 4096);
        if d % 4096 == 0 {
            assert(k <= d / 4096 - 1);
            assert(4096 * k <= 4096 * (d / 4096 - 1));
        } else {
            assert(k <= d / 4096);
            assert(4096 * k <= 4096 * (d / 4096));
        }
    }
}

/// `addr` lies in region `i` of the map, which is usable, a whole number
/// of 4 KiB steps past its start.
pub open spec fn in_usable_region(regions: Seq<MemoryRegion>, i: int, addr: u64) -> bool {
    &&& 0 <= i < regions.len()
    &&& regions[i].kind is Usable
    &&& regions[i].start <= addr < regions[i].end
    &&& (addr - regions[i].start) % 4096 == 0
}

/// Every address the allocator walks through lies in a usable region of the
/// map, so every frame it hands out holds usable memory.
pub proof fn lemma_usable_addr_in_usable_region(regions: Seq<MemoryRegion>, n: int)
    requires
        0 <= n < usable_frame_addrs(regions).len(),
    ensures
        exists|i: int| #[trigger] in_usable_region(regions, i, usable_frame_addrs(regions)[n]),
    decreases regions.len(),
{
    let head = if regions[0].kind is Usable {
        region_frame_addrs(regions[0])
    } else {
        Seq::<u64>::empty()
    };
    let rest = regions.drop_first();
    assert(usable_frame_addrs(regions) == head + usable_frame_addrs(rest));
    if n < head.len() {
        let r = regions[0];
        lemma_offset_in_region((r.end - r.start) as int, n);
        assert((4096 * n) % 4096 == 0) by (nonlinear_arith)
            requires
                0 <= n,
        ;
        assert(in_usable_region(regions, 0, usable_frame_addrs(regions)[n]));
    } else {
        lemma_usable_addr_in_usable_region(rest, n - head.len());
        let j = choose|j: int| #[trigger] in_usable_region(rest, j, usable_frame_addrs(rest)[n - head.len()]);
        assert(in_usable_region(regions, j + 1, usable_frame_addrs(regions)[n]));
    }
}

/// The frame of allocation `n` holds a usable address of the map: the
/// `n`-th one, which lies in a usable region.
pub proof fn lemma_allocated_frame_holds_usable_memory(regions: Seq<MemoryRegion>, n: int)
    requires
        0 <= n < usable_frame_addrs(regions).len(),
    ensures
        nth_frame(regions, n) is Some,
        ({
            let addr = usable_frame_addrs(regions)[n];
            let frame = nth_frame(regions, n)->0;
            &&& frame <= addr < frame + PAGE_SIZE
            &&& frame % PAGE_SIZE == 0
            &&& exists|i: int| #[trigger] in_usable_region(regions, i, addr)
        }),
{
    lemma_usable_addr_in_usable_region(regions, n);
    lemma_frame_start(usable_frame_addrs(regions)[n]);
}

proof fn lemma_offset_counted(d: int, k: int)
    requires
        0 <= k,
        4096 * k < d,
    ensures
        k < d / 4096 + (if d % 4096 == 0 { 0int } else { 1int }),
{
    assert(k < d / 4096 + (if d % 4096 == 0 { 0int } else { 1int })) by (nonlinear_arith)
        requires
            0 <= k,
            4096 * k < d,
    {
        assert(d == 4096 * (d / 4096) + d % 4096);
        if d % 4096 == 0 {
            assert(4096 * k < 4096 * (d / 4096));
        } else {
            assert(4096 * k < 4096 * (d / 4096 + 1));
        }
    }
}

/// The walk misses nothing: every address `start + 4096 * k` below the end
/// of a usable region (that is, all ceil((end - start) / 4096) of them)
/// occurs among the usable addresses the allocator walks through.
pub proof fn lemma_usable_walk_complete(regions: Seq<MemoryRegion>, i: int, k: int)
    requires
        0 <= i < regions.len(),
        regions[i].kind is Usable,
        0 <= k,
        regions[i].start + 4096 * k < regions[i].end,
    ensures
        exists|n: int|
            0 <= n < usable_frame_addrs(regions).len() && #[trigger] usable_frame_addrs(regions)[n]
                == regions[i].start + 4096 * k,
    decreases regions.len(),
{
    let head = if regions[0].kind is Usable {
        region_frame_addrs(regions[0])
    } else {
        Seq::<u64>::empty()
    };
    let rest = regions.drop_first();
    let all = usable_frame_addrs(regions);
    assert(all == head + usable_frame_addrs(rest));
    let r = regions[i];
    if i == 0 {
        lemma_offset_counted((r.end - r.start) as int, k);
        assert(all[k] == r.start + 4096 * k);
    } else {
        assert(rest[i - 1] == r);
        lemma_usable_walk_complete(rest, i - 1, k);
        let m = choose|m: int|
            0 <= m < usable_frame_addrs(rest).len() && #[trigger] usable_frame_addrs(rest)[m]
                == r.start + 4096 * k;
        assert(all[head.len() + m] == r.start + 4096 * k);
    }
}

/// Every frame of a usable region is handed out by some allocation: for
/// every address `start + 4096 * k` below the region's end, some allocation
/// number `n` returns the frame holding it.
pub proof fn lemma_every_usable_frame_handed_out(regions: Seq<MemoryRegion>, i: int, k: int)
    requires
        0 <= i < regions.len(),
        regions[i].kind is Usable,
        0 <= k,
        regions[i].start + 4096 * k < regions[i].end,
    ensures
        exists|n: int|
            #[trigger] nth_frame(regions, n) == Some(frame_start((regions[i].start + 4096 * k) as u64)),
{
    lemma_usable_walk_complete(regions, i, k);
    let all = usable_frame_addrs(regions);
    let n = choose|n: int| 0 <= n < all.len() && #[trigger] all[n] == regions[i].start + 4096 * k;
    assert(nth_frame(regions, n) == Some(frame_start((regions[i].start + 4096 * k) as u64)));
}

/// The usable regions come in address order without overlapping.
pub open spec fn usable_regions_ordered(regions: Seq<MemoryRegion>) -> bool {
    forall|i: int, j: int|
        0 <= i < j < regions.len() && (#[trigger] regions[i]).kind is Usable && (
        #[trigger] regions[j]).kind is Usable ==> regions[i].end <= regions[j].start
}

/// Every usable region starts on a 4 KiB boundary.
pub open spec fn usable_regions_page_aligned(regions: Seq<MemoryRegion>) -> bool {
    forall|i: int|
        0 <= i < regions.len() && (#[trigger] regions[i]).kind is Usable ==> regions[i].start % 4096
            == 0
}

proof fn lemma_usable_addrs_increase(regions: Seq<MemoryRegion>, a: int, b: int)
    requires
        usable_regions_ordered(regions),
        0 <= a < b < usable_frame_addrs(regions).len(),
    ensures
        usable_frame_addrs(regions)[a] < usable_frame_addrs(regions)[b],
    decreases regions.len(),
{
    let head = if regions[0].kind is Usable {
        region_frame_addrs(regions[0])
    } else {
        Seq::<u64>::empty()
    };
    let rest = regions.drop_first();
    let all = usable_frame_addrs(regions);
    assert(all == head + usable_frame_addrs(rest));
    let r = regions[0];
    if b < head.len() {
        lemma_offset_in_region((r.end - r.start) as int, a);
        lemma_offset_in_region((r.end - r.start) as int, b);
    } else if a < head.len() {
        lemma_offset_in_region((r.end - r.start) as int, a);
        lemma_usable_addr_in_usable_region(rest, b - head.len());
        let j = choose|j: int| #[trigger] in_usable_region(rest, j, usable_frame_addrs(rest)[b - head.len()]);
        assert(regions[j + 1] == rest[j]);
        assert(regions[0].end <= regions[j + 1].start);
    } else {
        assert forall|i: int, j: int|
            0 <= i < j < rest.len() && (#[trigger] rest[i]).kind is Usable && (
            #[trigger] rest[j]).kind is Usable implies rest[i].end <= rest[j].start by {
            assert(rest[i] == regions[i + 1] && rest[j] == regions[j + 1]);
        }
        lemma_usable_addrs_increase(rest, a - head.len(), b - head.len());
    }
}

/// No two usable regions share an address (empty regions share none).
pub open spec fn usable_regions_disjoint(regions: Seq<MemoryRegion>) -> bool {
    forall|i: int, j: int|
        0 <= i < regions.len() && 0 <= j < regions.len() && i != j && (
        #[trigger] regions[i]).kind is Usable && (#[trigger] regions[j]).kind is Usable ==> {
            ||| regions[i].end <= regions[j].start
            ||| regions[j].end <= regions[i].start
            ||| regions[i].end <= regions[i].start
            ||| regions[j].end <= regions[j].start
        }
}

proof fn lemma_usable_addrs_distinct(regions: Seq<MemoryRegion>, a: int, b: int)
    requires
        usable_regions_disjoint(regions),
        0 <= a < b < usable_frame_addrs(regions).len(),
    ensures
        usable_frame_addrs(regions)[a] != usable_frame_addrs(regions)[b],
    decreases regions.len(),
{
    let head = if regions[0].kind is Usable {
        region_frame_addrs(regions[0])
    } else {
        Seq::<u64>::empty()
    };
    let rest = regions.drop_first();
    let all = usable_frame_addrs(regions);
    assert(all == head + usable_frame_addrs(rest));
    let r = regions[0];
    if b < head.len() {
        lemma_offset_in_region((r.end - r.start) as int, a);
        lemma_offset_in_region((r.end - r.start) as int, b);
    } else if a < head.len() {
        lemma_offset_in_region((r.end - r.start) as int, a);
        lemma_usable_addr_in_usable_region(rest, b - head.len());
        let j = choose|j: int| #[trigger] in_usable_region(rest, j, usable_frame_addrs(rest)[b - head.len()]);
        assert(regions[j + 1] == rest[j]);
        assert(regions[0].kind is Usable && regions[j + 1].kind is Usable);
    } else {
        assert forall|i: int, j: int|
            0 <= i < rest.len() && 0 <= j < rest.len() && i != j && (#[trigger] rest[i]).kind is Usable && (
            #[trigger] rest[j]).kind is Usable implies {
                ||| rest[i].end <= rest[j].start
                ||| rest[j].end <= rest[i].start
                ||| rest[i].end <= rest[i].start
                ||| rest[j].end <= rest[j].start
            } by {
            assert(rest[i] == regions[i + 1] && rest[j] == regions[j + 1]);
        }
        lemma_usable_addrs_distinct(rest, a - head.len(), b - head.len());
    }
}

proof fn lemma_usable_addr_page_aligned(regions: Seq<MemoryRegion>, n: int)
    requires
        usable_regions_page_aligned(regions),
        0 <= n < usable_frame_addrs(regions).len(),
    ensures
        usable_frame_addrs(regions)[n] % 4096 == 0,
        frame_start(usable_frame_addrs(regions)[n]) == usable_frame_addrs(regions)[n],
{
    let all = usable_frame_addrs(regions);
    lemma_usable_addr_in_usable_region(regions, n);
    let i = choose|i: int| #[trigger] in_usable_region(regions, i, all[n]);
    assert(all[n] % 4096 == 0) by (nonlinear_arith)
        requires
            regions[i].start % 4096 == 0,
            (all[n] - regions[i].start) % 4096 == 0,
            regions[i].start <= all[n],
    ;
    lemma_frame_start(all[n]);
}

/// In a map whose usable regions are page aligned and pairwise disjoint (in
/// any order), the allocator never hands out a frame twice: the frames of
/// two different allocations are different.
pub proof fn lemma_frames_never_repeat(regions: Seq<MemoryRegion>, a: int, b: int)
    requires
        usable_regions_disjoint(regions),
        usable_regions_page_aligned(regions),
        0 <= a < usable_frame_addrs(regions).len(),
        0 <= b < usable_frame_addrs(regions).len(),
        a != b,
    ensures
        nth_frame(regions, a) is Some,
        nth_frame(regions, b) is Some,
        nth_frame(regions, a)->0 != nth_frame(regions, b)->0,
{
    if a < b {
        lemma_usable_addrs_distinct(regions, a, b);
    } else {
        lemma_usable_addrs_distinct(regions, b, a);
    }
    lemma_usable_addr_page_aligned(regions, a);
    lemma_usable_addr_page_aligned(regions, b);
}

/// In a map whose usable regions are page aligned and come in address order
/// without overlapping, the frames come out in ascending order.
pub proof fn lemma_frames_ascend(regions: Seq<MemoryRegion>, a: int, b: int)
    requires
        usable_regions_ordered(regions),
        usable_regions_page_aligned(regions),
        0 <= a < b < usable_frame_addrs(regions).len(),
    ensures
        nth_frame(regions, a) is Some,
        nth_frame(regions, b) is Some,
        nth_frame(regions, a)->0 < nth_frame(regions, b)->0,
{
    lemma_usable_addrs_increase(regions, a, b);
    lemma_usable_addr_page_aligned(regions, a);
    lemma_usable_addr_page_aligned(regions, b);
}

/// How many frame addresses a region spans.
fn region_frame_count(r: &MemoryRegion) -> (count: u64)
    ensures
        count == frame_count(*r),
{
    if r.start < r.end {
        let d = r.end - r.start;
        d / 4096 + if d % 4096 == 0 { 0 } else { 1 }
    } else {
        0
    }
}

/// The `n`-th usable address of the map, if there is one.
fn nth_usable_frame_addr(regions: &[MemoryRegion], n: usize) -> (addr: Option<u64>)
    ensures
        addr == (if n < usable_frame_addrs(regions@).len() {
            Some(usable_frame_addrs(regions@)[n as int])
        } else {
            None::<u64>
        }),
{
    let ghost all = usable_frame_addrs(regions@);
    let mut i: usize = 0;
    let mut remaining: u64 = n as u64;
    assert(regions@.subrange(0, regions@.len() as int) =~= regions@);
    while i < regions.len()
        invariant
            i <= regions@.len(),
            all == usable_frame_addrs(regions@),
            (n < all.len()) == (remaining < usable_frame_addrs(
                regions@.subrange(i as int, regions@.len() as int),
            ).len()),
            n < all.len() ==> all[n as int] == usable_frame_addrs(
                regions@.subrange(i as int, regions@.len() as int),
            )[remaining as int],
        decreases regions@.len() - i,
    {
        proof {
            lemma_usable_frame_addrs_split(regions@, i as int);
        }
        let r = &regions[i];
        if r.kind == MemoryRegionKind::Usable {
            let count = region_frame_count(r);
            if remaining < count {
                proof {
                    lemma_offset_in_region((r.end - r.start) as int, remaining as int);
                }
                return Some(r.start + 4096 * remaining);
            }
            remaining = remaining - count;
        }
        i = i + 1;
    }
    None
}

/// Hands out the frames of the usable regions of the boot memory map, one
/// per call, in map order; it keeps only the index of the next one, and
/// never frees.
pub struct BootInfoFrameAllocator<'a> {
    memory_regions: &'a [MemoryRegion],
    next: usize,
}

impl<'a> BootInfoFrameAllocator<'a> {
    /// The memory map the allocator reads.
    pub closed spec fn regions(&self) -> Seq<MemoryRegion> {
        self.memory_regions@
    }

    /// How many allocations have been made.
    pub closed spec fn next_index(&self) -> nat {
        self.next as nat
    }

    /// An allocator at the first usable frame of `memory_regions`, which
    /// must be the map the bootloader reported: every usable region is
    /// trusted to be free.
    pub fn init(memory_regions: &'a [MemoryRegion]) -> (allocator: Self)
        ensures
            allocator.regions() == memory_regions@,
            allocator.next_index() == 0,
    {
        BootInfoFrameAllocator { memory_regions, next: 0 }
    }

    /// How many allocations have been made: the index of the usable address
    /// the next allocation takes its frame from.
    pub fn next_frame_index(&self) -> (index: usize)
        ensures
            index == self.next_index(),
    {
        self.next
    }

    /// The `n`-th usable address of the map (the start of its region
    /// stepped `k` times by 4 KiB), or `None` past the last one.
    pub fn usable_frame(&self, n: usize) -> (addr: Option<u64>)
        ensures
            addr == (if n < usable_frame_addrs(self.regions()).len() {
                Some(usable_frame_addrs(self.regions())[n as int])
            } else {
                None::<u64>
            }),
    {
        nth_usable_frame_addr(self.memory_regions, n)
    }

    /// The next frame: the frame holding the `next_index()`-th usable
    /// address, or `None` once the usable addresses are used up. Every call
    /// moves on by one, whether or not it found a frame.
    pub fn allocate_frame(&mut self) -> (frame: Option<u64>)
        requires
            old(self).next_index() < usize::MAX,
            forall|i: int|
                0 <= i <= old(self).next_index() && i < usable_frame_addrs(old(self).regions()).len()
                    ==> #[trigger] usable_frame_addrs(old(self).regions())[i] < PHYS_ADDR_LIMIT,
        ensures
            final(self).regions() == old(self).regions(),
            final(self).next_index() == old(self).next_index() + 1,
            frame == nth_frame(old(self).regions(), old(self).next_index() as int),
    {
        let addr = nth_usable_frame_addr(self.memory_regions, self.next);
        self.next = self.next + 1;
        match addr {
            Some(a) => Some(containing_frame_start(a)),
            None => None,
        }
    }
}

} // verus!
