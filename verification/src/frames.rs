//! Physical frames: the usable ones that the boot memory map lists, handed
//! out one after the other, and reservations of a number of them.
use crate::memory::PAGE_SIZE;
use vstd::prelude::*;

verus! {

/// A range of physical memory from the boot memory map, `start` included
/// and `end` excluded, and whether it is free for the kernel to use.
#[derive(Debug, Clone, Copy, PartialEq, Eq, Structural)]
pub struct MemoryRegion {
    pub start: u64,
    pub end: u64,
    pub usable: bool,
}

/// The start of the frame that holds `address`.
pub open spec fn frame_start(address: int) -> int {
    address - address % PAGE_SIZE as int
}

/// How many addresses a step of one frame at a time from the start of a
/// usable region visits before reaching its end.
pub open spec fn region_frame_count(r: MemoryRegion) -> int {
    if r.usable && r.start < r.end {
        (r.end - r.start - 1) / PAGE_SIZE as int + 1
    } else {
        0
    }
}

/// The frames of a region: those holding its start and each frame-sized
/// step after it that stays below its end.
pub open spec fn region_frames(r: MemoryRegion) -> Seq<u64> {
    Seq::new(
        region_frame_count(r) as nat,
        |k: int| frame_start(r.start + k * PAGE_SIZE as int) as u64,
    )
}

/// The usable frames of a memory map, region by region.
pub open spec fn usable_frames(regions: Seq<MemoryRegion>) -> Seq<u64>
    decreases regions.len(),
{
    if regions.len() == 0 {
        Seq::empty()
    } else {
        usable_frames(regions.drop_last()) + region_frames(regions.last())
    }
}

/// The usable frames of two lists of regions one after the other are those
/// of the first followed by those of the second.
pub proof fn lemma_usable_frames_append(a: Seq<MemoryRegion>, b: Seq<MemoryRegion>)
    ensures
        usable_frames(a + b) == usable_frames(a) + usable_frames(b),
    decreases b.len(),
{
    if b.len() == 0 {
        assert(a + b =~= a);
        assert(usable_frames(a) + usable_frames(b) =~= usable_frames(a));
    } else {
        assert((a + b).drop_last() =~= a + b.drop_last());
        lemma_usable_frames_append(a, b.drop_last());
        assert(usable_frames(a) + usable_frames(b) =~= usable_frames(a) + usable_frames(
            b.drop_last(),
        ) + region_frames(b.last()));
    }
}

/// Regions in increasing order without overlaps, usable ones starting on a
/// frame boundary.
pub open spec fn sane_memory_map(regions: Seq<MemoryRegion>) -> bool {
    &&& forall|i: int| 0 <= i < regions.len() ==> #[trigger] regions[i].start <= regions[i].end
    &&& forall|i: int|
        0 <= i < regions.len() && #[trigger] regions[i].usable ==> regions[i].start % PAGE_SIZE == 0
    &&& forall|i: int, j: int|
        0 <= i < j < regions.len() ==> #[trigger] regions[i].end <= #[trigger] regions[j].start
}

/// In a sane memory map the usable frames come in strictly increasing
/// order, all below the end of the last region.
proof fn lemma_usable_frames_increasing(regions: Seq<MemoryRegion>)
    requires
        sane_memory_map(regions),
    ensures
        forall|i: int, j: int|
            0 <= i < j < usable_frames(regions).len() ==> #[trigger] usable_frames(regions)[i]
                < #[trigger] usable_frames(regions)[j],
        regions.len() > 0 ==> forall|i: int|
            0 <= i < usable_frames(regions).len() ==> #[trigger] usable_frames(regions)[i]
                < regions.last().end,
    decreases regions.len(),
{
    if regions.len() > 0 {
        let prefix = regions.drop_last();
        let r = regions.last();
        assert(sane_memory_map(prefix)) by {
            assert forall|i: int, j: int|
                0 <= i < j < prefix.len() implies #[trigger] prefix[i].end <= #[trigger] prefix[j].start by {
                assert(regions[i].end <= regions[j].start);
            }
        }
        lemma_usable_frames_increasing(prefix);
        let before = usable_frames(prefix);
        let own = region_frames(r);
        let all = usable_frames(regions);
        assert(all == before + own);
        if prefix.len() > 0 {
            assert(prefix.last().end <= r.start) by {
                assert(regions[regions.len() - 2].end <= regions[regions.len() - 1].start);
            }
        }
        if r.usable && r.start < r.end {
            assert(r.start % PAGE_SIZE == 0) by {
                assert(regions[regions.len() - 1].usable);
            }
        }
        assert forall|k: int| 0 <= k < own.len() implies r.start <= #[trigger] own[k] < r.end by {
            let a = r.start + k * PAGE_SIZE as int;
            assert(a % PAGE_SIZE as int == 0) by (nonlinear_arith)
                requires
                    r.start % PAGE_SIZE == 0,
                    a == r.start + k * PAGE_SIZE as int,
                    k >= 0,
            ;
            assert(k * PAGE_SIZE as int <= r.end - r.start - 1) by (nonlinear_arith)
                requires
                    0 <= k < (r.end - r.start - 1) / PAGE_SIZE as int + 1,
                    r.start < r.end,
            ;
        }
        assert forall|k1: int, k2: int| 0 <= k1 < k2 < own.len() implies #[trigger] own[k1]
            < #[trigger] own[k2] by {
            let a1 = r.start + k1 * PAGE_SIZE as int;
            let a2 = r.start + k2 * PAGE_SIZE as int;
            assert(a1 % PAGE_SIZE as int == 0 && a2 % PAGE_SIZE as int == 0 && a1 < a2)
                by (nonlinear_arith)
                requires
                    r.start % PAGE_SIZE == 0,
                    a1 == r.start + k1 * PAGE_SIZE as int,
                    a2 == r.start + k2 * PAGE_SIZE as int,
                    0 <= k1 < k2,
            ;
        }
        assert forall|i: int, j: int| 0 <= i < j < all.len() implies #[trigger] all[i]
            < #[trigger] all[j] by {
            if j < before.len() {
            } else if i < before.len() {
                assert(all[i] == before[i]);
                assert(all[j] == own[j - before.len()]);
                assert(before[i] < prefix.last().end);
            } else {
                assert(all[i] == own[i - before.len()]);
                assert(all[j] == own[j - before.len()]);
            }
        }
        assert forall|i: int| 0 <= i < all.len() implies #[trigger] all[i] < regions.last().end by {
            if i < before.len() {
                assert(all[i] == before[i]);
                assert(before[i] < prefix.last().end);
            } else {
                assert(all[i] == own[i - before.len()]);
            }
        }
    }
}

/// A sane memory map lists no usable frame twice, so an allocator that
/// hands out its frames in order never hands out the same frame twice.
pub proof fn lemma_usable_frames_distinct(regions: Seq<MemoryRegion>)
    requires
        sane_memory_map(regions),
    ensures
        usable_frames(regions).no_duplicates(),
{
    lemma_usable_frames_increasing(regions);
    let f = usable_frames(regions);
    assert forall|i: int, j: int| 0 <= i < f.len() && 0 <= j < f.len() && i != j implies f[i]
        != f[j] by {
        if i < j {
            assert(f[i] < f[j]);
        } else {
            assert(f[j] < f[i]);
        }
    }
}

/// The frames of a region, counted with a step of one frame.
fn region_frame_total(r: MemoryRegion) -> (count: u64)
    ensures
        count == region_frame_count(r),
{
    if r.usable && r.start < r.end {
        (r.end - r.start - 1) / PAGE_SIZE + 1
    } else {
        0
    }
}

/// How many usable frames a memory map lists: the number an allocator
/// over it can hand out.
pub fn usable_frame_count(regions: &Vec<MemoryRegion>) -> (r: u128)
    ensures
        r == usable_frames(regions@).len(),
{
    let mut total: u128 = 0;
    let mut i: usize = 0;
    while i < regions.len()
        invariant
            i <= regions@.len(),
            total == usable_frames(regions@.subrange(0, i as int)).len(),
            total <= i * 0x10_0000_0000_0000,
        decreases regions@.len() - i,
    {
        let count = region_frame_total(regions[i]);
        proof {
            let r = regions@[i as int];
            if r.usable && r.start < r.end {
                assert((r.end - r.start - 1) / PAGE_SIZE as int <= 0xF_FFFF_FFFF_FFFF) by (nonlinear_arith)
                    requires
                        0 <= r.end - r.start - 1 <= u64::MAX,
                ;
            }
            assert(count <= 0x10_0000_0000_0000);
            assert(total + count <= (i + 1) * 0x10_0000_0000_0000) by (nonlinear_arith)
                requires
                    total <= i * 0x10_0000_0000_0000,
                    count <= 0x10_0000_0000_0000,
            ;
            assert(regions@.subrange(0, i + 1).drop_last() =~= regions@.subrange(0, i as int));
            assert(regions@.subrange(0, i + 1).last() == r);
        }
        total = total + count as u128;
        i = i + 1;
    }
    proof {
        assert(regions@.subrange(0, regions@.len() as int) =~= regions@);
    }
    total
}

/// Hands out the usable frames of a memory map in order, each once.
pub struct PhysicalFrameAllocator {
    regions: Vec<MemoryRegion>,
    next: usize,
}

impl PhysicalFrameAllocator {
    #[verifier::type_invariant]
    closed spec fn inv(self) -> bool {
        &&& usable_frames(self.regions@).len() <= usize::MAX
        &&& self.next <= usable_frames(self.regions@).len()
    }

    /// The memory map.
    pub closed spec fn spec_regions(&self) -> Seq<MemoryRegion> {
        self.regions@
    }

    /// How many frames have been handed out.
    pub closed spec fn spec_next(&self) -> nat {
        self.next as nat
    }

    /// The frames not handed out yet.
    pub open spec fn spec_remaining(&self) -> int {
        usable_frames(self.spec_regions()).len() - self.spec_next()
    }

    /// An allocator over `regions` that has handed out nothing; the number
    /// of usable frames must fit in a `usize`.
    pub fn new(regions: Vec<MemoryRegion>) -> (r: Self)
        requires
            usable_frames(regions@).len() <= usize::MAX,
        ensures
            r.spec_regions() == regions@,
            r.spec_next() == 0,
    {
        Self { regions, next: 0 }
    }

    /// The `n`-th usable frame, if there are that many.
    fn nth_usable_frame(&self, n: usize) -> (r: Option<u64>)
        ensures
            n < usable_frames(self.regions@).len() ==> r == Some(usable_frames(self.regions@)[n as int]),
            n >= usable_frames(self.regions@).len() ==> r is None,
    {
        let ghost regions = self.regions@;
        let mut i: usize = 0;
        let mut m: u64 = n as u64;
        while i < self.regions.len()
            invariant
                regions == self.regions@,
                i <= regions.len(),
                usable_frames(regions.subrange(0, i as int)).len() + m == n,
            decreases regions.len() - i,
        {
            let r = self.regions[i];
            let count = region_frame_total(r);
            proof {
                let prefix = regions.subrange(0, i as int);
                let next = regions.subrange(0, i + 1);
                assert(next.drop_last() =~= prefix);
                assert(next.last() == r);
                assert(usable_frames(next) == usable_frames(prefix) + region_frames(r));
            }
            if m < count {
                proof {
                    let next = regions.subrange(0, i + 1);
                    let rest = regions.subrange(i + 1, regions.len() as int);
                    assert(regions =~= next + rest);
                    lemma_usable_frames_append(next, rest);
                    assert(m * PAGE_SIZE <= r.end - r.start - 1) by (nonlinear_arith)
                        requires
                            m < (r.end - r.start - 1) / PAGE_SIZE as int + 1,
                            r.start < r.end,
                    ;
                    assert(region_frames(r)[m as int] == frame_start(r.start + m * PAGE_SIZE as int));
                }
                let address = r.start + m * PAGE_SIZE;
                return Some(address - address % PAGE_SIZE);
            }
            m = m - count;
            i = i + 1;
        }
        proof {
            assert(regions.subrange(0, regions.len() as int) =~= regions);
        }
        None
    }

    /// How many usable frames the memory map lists.
    fn usable_frame_count(&self) -> (r: usize)
        ensures
            r == usable_frames(self.regions@).len(),
    {
        proof {
            use_type_invariant(self);
        }
        let ghost regions = self.regions@;
        let mut i: usize = 0;
        let mut total: usize = 0;
        while i < self.regions.len()
            invariant
                regions == self.regions@,
                i <= regions.len(),
                total == usable_frames(regions.subrange(0, i as int)).len(),
                usable_frames(regions).len() <= usize::MAX,
            decreases regions.len() - i,
        {
            let r = self.regions[i];
            let count = region_frame_total(r);
            proof {
                let prefix = regions.subrange(0, i as int);
                let next = regions.subrange(0, i + 1);
                let rest = regions.subrange(i + 1, regions.len() as int);
                assert(next.drop_last() =~= prefix);
                assert(next.last() == r);
                assert(regions =~= next + rest);
                lemma_usable_frames_append(next, rest);
            }
            total = total + count as usize;
            i = i + 1;
        }
        proof {
            assert(regions.subrange(0, regions.len() as int) =~= regions);
        }
        total
    }

    /// The frames not handed out yet.
    pub fn remaining_frames(&self) -> (r: usize)
        ensures
            r == self.spec_remaining(),
    {
        proof {
            use_type_invariant(self);
        }
        self.usable_frame_count() - self.next
    }

    /// The next usable frame, or `None` when all have been handed out.
    pub fn allocate_frame(&mut self) -> (r: Option<u64>)
        ensures
            final(self).spec_regions() == old(self).spec_regions(),
            old(self).spec_remaining() > 0 ==> r == Some(
                usable_frames(old(self).spec_regions())[old(self).spec_next() as int],
            ) && final(self).spec_next() == old(self).spec_next() + 1,
            old(self).spec_remaining() <= 0 ==> r is None && final(self).spec_next()
                == old(self).spec_next(),
    {
        proof {
            use_type_invariant(&*self);
        }
        let frame = self.nth_usable_frame(self.next);
        if frame.is_some() {
            self.next = self.next + 1;
        }
        frame
    }

    /// A reservation of `count` frames, or the allocator back when fewer
    /// remain.
    pub fn reserve(self, count: usize) -> (r: Result<FrameReservation, PhysicalFrameAllocator>)
        ensures
            self.spec_remaining() >= count ==> (r matches Ok(res) && res.wf()
                && res.spec_allocator() == self && res.spec_remaining() == count),
            self.spec_remaining() < count ==> r == Err::<FrameReservation, PhysicalFrameAllocator>(
                self,
            ),
    {
        if self.remaining_frames() < count {
            return Err(self);
        }
        Ok(FrameReservation { allocator: self, remaining: count })
    }
}

/// Frames set aside: that many allocations from the allocator it holds are
/// sure to succeed.
pub struct FrameReservation {
    allocator: PhysicalFrameAllocator,
    remaining: usize,
}

impl FrameReservation {
    /// The reservation does not promise more frames than remain.
    pub closed spec fn wf(&self) -> bool {
        self.remaining <= self.allocator.spec_remaining()
    }

    pub closed spec fn spec_allocator(&self) -> PhysicalFrameAllocator {
        self.allocator
    }

    /// The frames still reserved.
    pub closed spec fn spec_remaining(&self) -> nat {
        self.remaining as nat
    }

    /// The frames still reserved.
    pub fn remaining(&self) -> (r: usize)
        ensures
            r == self.spec_remaining(),
    {
        self.remaining
    }

    /// One of the reserved frames: the allocator's next usable frame.
    pub fn allocate_frame(&mut self) -> (r: Option<u64>)
        requires
            old(self).wf(),
            old(self).spec_remaining() > 0,
        ensures
            final(self).wf(),
            final(self).spec_remaining() == old(self).spec_remaining() - 1,
            final(self).spec_allocator().spec_regions() == old(self).spec_allocator().spec_regions(),
            final(self).spec_allocator().spec_next() == old(self).spec_allocator().spec_next() + 1,
            r == Some(
                usable_frames(old(self).spec_allocator().spec_regions())[old(
                    self,
                ).spec_allocator().spec_next() as int],
            ),
    {
        let frame = self.allocator.allocate_frame();
        self.remaining = self.remaining - 1;
        frame
    }

    /// Ends the reservation and gives the allocator back.
    pub fn into_allocator(self) -> (r: PhysicalFrameAllocator)
        ensures
            r == self.spec_allocator(),
    {
        self.allocator
    }
}

} // verus!
