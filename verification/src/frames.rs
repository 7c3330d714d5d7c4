use vstd::prelude::*;

use crate::paging::PHYS_LIMIT;

verus! {

/// Size of a physical frame.
pub const FRAME_SIZE: u64 = 4096;

/// A region of the boot memory map: `start..end`, and whether it is free RAM.
#[derive(Debug, Clone, Copy, PartialEq, Eq)]
pub struct MemRegion {
    pub start: u64,
    pub end: u64,
    pub usable: bool,
}

/// Number of frames a region offers: one per 4 KiB step from its start
/// while below its end, none for a region that is not usable.
pub open spec fn frame_count(r: MemRegion) -> nat {
    if r.usable && r.start < r.end {
        ((r.end - r.start - 1) / (FRAME_SIZE as int) + 1) as nat
    } else {
        0
    }
}

/// The frames of a region: the frame holding each address `start`,
/// `start + 4096`, ... below `end`.
pub open spec fn region_frames(r: MemRegion) -> Seq<u64> {
    Seq::new(
        frame_count(r),
        |i: int| ((r.start + i * FRAME_SIZE) - (r.start + i * FRAME_SIZE) % (FRAME_SIZE as int)) as u64,
    )
}

/// All frames of a memory map, region by region in map order.
pub open spec fn usable_frames(rs: Seq<MemRegion>) -> Seq<u64>
    decreases rs.len(),
{
    if rs.len() == 0 {
        Seq::empty()
    } else {
        usable_frames(rs.drop_last()) + region_frames(rs.last())
    }
}

/// Hands out physical frames: freed frames first, most recently freed
/// first, then the frames of the memory map in order.
pub struct BootInfoFrameAllocator {
    regions: Vec<MemRegion>,
    next: usize,
    recycled: Vec<u64>,
}

impl BootInfoFrameAllocator {
    /// The memory map.
    pub closed spec fn regions(&self) -> Seq<MemRegion> {
        self.regions@
    }

    /// How many frames of the memory map have been asked for.
    pub closed spec fn next(&self) -> nat {
        self.next as nat
    }

    /// Freed frames, oldest first.
    pub closed spec fn recycled(&self) -> Seq<u64> {
        self.recycled@
    }

    /// Every usable region lies below the physical address limit.
    pub open spec fn map_ok(rs: Seq<MemRegion>) -> bool {
        forall|i: int| 0 <= i < rs.len() ==> (#[trigger] rs[i]).usable ==> rs[i].end <= PHYS_LIMIT
    }

    /// The allocator's memory map is well formed.
    pub open spec fn wf(&self) -> bool {
        Self::map_ok(self.regions())
    }

    /// An allocator over `regions` that has handed out nothing.
    pub fn new(regions: Vec<MemRegion>) -> (a: BootInfoFrameAllocator)
        requires
            Self::map_ok(regions@),
        ensures
            a.wf(),
            a.regions() == regions@,
            a.next() == 0,
            a.recycled() == Seq::<u64>::empty(),
    {
        BootInfoFrameAllocator { regions, next: 0, recycled: Vec::new() }
    }

    /// How many frames of the memory map have been asked for.
    pub fn handed_out(&self) -> (n: usize)
        ensures
            n == self.next(),
    {
        self.next
    }

    /// Takes back a frame (the caller has zeroed it).
    pub fn deallocate_frame(&mut self, frame: u64)
        ensures
            final(self).regions() == old(self).regions(),
            final(self).next() == old(self).next(),
            final(self).recycled() == old(self).recycled().push(frame),
    {
        self.recycled.push(frame);
    }

    /// Hands out a frame: the last one freed if any; otherwise the next
    /// frame of the memory map, or `None` once the map is used up (the count
    /// of frames asked for still advances).
    pub fn allocate_frame(&mut self) -> (r: Option<u64>)
        requires
            old(self).wf(),
            old(self).next() < usize::MAX,
        ensures
            final(self).wf(),
            final(self).regions() == old(self).regions(),
            old(self).recycled().len() > 0 ==> {
                &&& r == Some(old(self).recycled().last())
                &&& final(self).recycled() == old(self).recycled().drop_last()
                &&& final(self).next() == old(self).next()
            },
            old(self).recycled().len() == 0 ==> {
                &&& r == (if old(self).next() < usable_frames(old(self).regions()).len() {
                    Some(usable_frames(old(self).regions())[old(self).next() as int])
                } else {
                    None::<u64>
                })
                &&& final(self).recycled() == old(self).recycled()
                &&& final(self).next() == old(self).next() + 1
            },
    {
        match self.recycled.pop() {
            Some(f) => {
                return Some(f);
            },
            None => {},
        }
        let frame = nth_frame(&self.regions, self.next);
        self.next = self.next + 1;
        frame
    }
}

proof fn lemma_usable_frames_step(rs: Seq<MemRegion>, i: int)
    requires
        0 <= i < rs.len(),
    ensures
        usable_frames(rs.take(i + 1)) == usable_frames(rs.take(i)) + region_frames(rs[i]),
{
    assert(rs.take(i + 1).drop_last() =~= rs.take(i));
}

/// The frame at position `n` of the memory map's frames, if there are that many.
fn nth_frame(regions: &Vec<MemRegion>, n: usize) -> (r: Option<u64>)
    requires
        BootInfoFrameAllocator::map_ok(regions@),
    ensures
        r == (if n < usable_frames(regions@).len() {
            Some(usable_frames(regions@)[n as int])
        } else {
            None::<u64>
        }),
{
    let ghost rs = regions@;
    let mut left = n;
    let mut i: usize = 0;
    while i < regions.len()
        invariant
            rs == regions@,
            BootInfoFrameAllocator::map_ok(rs),
            i <= rs.len(),
            usable_frames(rs.take(i as int)).len() + left == n,
        decreases rs.len() - i,
    {
        proof {
            lemma_usable_frames_step(rs, i as int);
        }
        let r = regions[i];
        if r.usable && r.start < r.end {
            let count = (r.end - r.start - 1) / FRAME_SIZE + 1;
            if (left as u64) < count {
                let k = left as u64;
                assert(k * FRAME_SIZE <= r.end - r.start - 1) by (nonlinear_arith)
                    requires
                        k < (r.end - r.start - 1) / 4096 + 1,
                        FRAME_SIZE == 4096,
                ;
                let addr = r.start + k * FRAME_SIZE;
                let frame = addr - addr % FRAME_SIZE;
                proof {
                    let pre = usable_frames(rs.take(i as int));
                    assert(usable_frames(rs.take(i as int + 1))[n as int] == region_frames(r)[k as int]);
                    assert(rs.take(i as int + 1).len() <= rs.len());
                    lemma_usable_frames_prefix(rs, i as int + 1);
                }
                return Some(frame);
            }
            left = left - count as usize;
        }
        i = i + 1;
    }
    proof {
        assert(rs.take(rs.len() as int) =~= rs);
    }
    None
}

/// The frames of a prefix of the map come first among the frames of the map.
proof fn lemma_usable_frames_prefix(rs: Seq<MemRegion>, k: int)
    requires
        0 <= k <= rs.len(),
    ensures
        usable_frames(rs.take(k)).len() <= usable_frames(rs).len(),
        forall|j: int|
            0 <= j < usable_frames(rs.take(k)).len() ==> usable_frames(rs)[j] == usable_frames(
                rs.take(k),
            )[j],
    decreases rs.len() - k,
{
    if k < rs.len() {
        lemma_usable_frames_step(rs, k);
        lemma_usable_frames_prefix(rs, k + 1);
    } else {
        assert(rs.take(k) =~= rs);
    }
}

/// A frame allocator with nothing to hand out.
#[derive(Debug, Clone, Copy)]
pub struct EmptyFrameAllocator;

impl EmptyFrameAllocator {
    /// There is never a frame.
    pub fn allocate_frame(&mut self) -> (r: Option<u64>)
        ensures
            r is None,
    {
        None
    }
}

} // verus!
