use vstd::prelude::*;

verus! {

/// Page table entry bits of x86-64: present, user-accessible, huge page.
pub const PTE_PRESENT: u64 = 0x1;
pub const PTE_USER: u64 = 0x4;
pub const PTE_HUGE: u64 = 0x80;
/// The physical address bits of a page table entry.
pub const PTE_ADDR_MASK: u64 = 0x000F_FFFF_FFFF_F000;
/// Physical addresses are below 2^52.
pub const PHYS_LIMIT: u64 = 0x0010_0000_0000_0000;

/// Why a page walk stops without a translation.
#[derive(Debug, Clone, Copy, PartialEq, Eq)]
pub enum WalkFault {
    /// An entry on the way is not present.
    NotPresent,
    /// An entry maps a huge page.
    HugePage,
    /// An entry on the way is not accessible from user mode.
    NotUser,
}

/// The frame an entry points to, as `PageTableEntry::frame` reads it: an
/// error when the present bit is clear or the huge-page bit is set,
/// otherwise the address bits.
pub open spec fn spec_entry_frame(e: u64) -> Result<u64, WalkFault> {
    if e & PTE_PRESENT == 0 {
        Err(WalkFault::NotPresent)
    } else if e & PTE_HUGE != 0 {
        Err(WalkFault::HugePage)
    } else {
        Ok(e & PTE_ADDR_MASK)
    }
}

/// The index into the level-`level` table (0 = PML4 .. 3 = last level) of a
/// virtual address: 9 bits each from bit 39, 30, 21 and 12.
pub open spec fn table_index(vaddr: u64, level: int) -> u64 {
    if level == 0 {
        (vaddr >> 39u64) & 0x1FF
    } else if level == 1 {
        (vaddr >> 30u64) & 0x1FF
    } else if level == 2 {
        (vaddr >> 21u64) & 0x1FF
    } else {
        (vaddr >> 12u64) & 0x1FF
    }
}

/// Physical address of the entry for `vaddr` in the table at `table`.
pub open spec fn entry_addr(table: u64, vaddr: u64, level: int) -> u64 {
    (table + 8 * table_index(vaddr, level)) as u64
}

/// Translating `vaddr` from the level-`level` table at `table`, reading
/// entries from physical memory `mem`: each level's entry must map a frame
/// (and be user-accessible when `user` is asked for); the last frame plus the
/// offset in the page is the answer.
pub open spec fn spec_walk(mem: spec_fn(u64) -> u64, table: u64, vaddr: u64, level: int, user: bool) -> Result<u64, WalkFault>
    decreases 4 - level,
{
    if level >= 4 {
        Ok((table + (vaddr & 0xFFF)) as u64)
    } else {
        let e = mem(entry_addr(table, vaddr, level));
        match spec_entry_frame(e) {
            Err(f) => Err(f),
            Ok(frame) => if user && e & PTE_USER == 0 {
                Err(WalkFault::NotUser)
            } else {
                spec_walk(mem, frame, vaddr, level + 1, user)
            },
        }
    }
}

/// The outcome of one step of a page walk.
#[derive(Debug, Clone, Copy, PartialEq, Eq)]
pub enum WalkStep {
    /// Read the entry at `entry_addr()` next.
    Continue,
    /// The walk found this physical address.
    Done(u64),
    /// The walk stops without a translation.
    Fault(WalkFault),
}

/// A four-level page walk in progress: the table being read and its level.
#[derive(Debug, Clone, Copy)]
pub struct PageWalk {
    pub vaddr: u64,
    pub table: u64,
    pub level: usize,
    pub require_user: bool,
}

impl PageWalk {
    /// The walk reads a table that lies in physical memory at one of the four levels.
    pub open spec fn wf(&self) -> bool {
        &&& self.level < 4
        &&& self.table & 0xFFF == 0
        &&& self.table < PHYS_LIMIT
    }

    /// Starts a walk of `vaddr` from the PML4 frame holding `root` (the
    /// address in CR3); `require_user` asks every level to be user-accessible.
    pub fn new(root: u64, vaddr: u64, require_user: bool) -> (w: PageWalk)
        requires
            root < PHYS_LIMIT,
        ensures
            w.wf(),
            w.vaddr == vaddr,
            w.table == root - root % 4096,
            w.level == 0,
            w.require_user == require_user,
    {
        assert(root & !0xFFFu64 == root - root % 4096 && (root & !0xFFFu64) & 0xFFF == 0
            && root & !0xFFFu64 <= root) by (bit_vector);
        PageWalk { vaddr, table: root & !0xFFF, level: 0, require_user }
    }

    /// Physical address of the entry the walk reads next.
    pub fn entry_addr(&self) -> (a: u64)
        requires
            self.wf(),
        ensures
            a == entry_addr(self.table, self.vaddr, self.level as int),
    {
        let v = self.vaddr;
        let idx = if self.level == 0 {
            (v >> 39u64) & 0x1FF
        } else if self.level == 1 {
            (v >> 30u64) & 0x1FF
        } else if self.level == 2 {
            (v >> 21u64) & 0x1FF
        } else {
            (v >> 12u64) & 0x1FF
        };
        assert(idx == table_index(v, self.level as int));
        assert(((v >> 39u64) & 0x1FF) <= 0x1FF && ((v >> 30u64) & 0x1FF) <= 0x1FF && ((v
            >> 21u64) & 0x1FF) <= 0x1FF && ((v >> 12u64) & 0x1FF) <= 0x1FF) by (bit_vector);
        self.table + 8 * idx
    }

    /// Consumes the entry read at `entry_addr()`. Whatever the rest of
    /// memory holds, the walk's eventual answer is unchanged by the step.
    pub fn step(&mut self, entry: u64) -> (r: WalkStep)
        requires
            old(self).wf(),
        ensures
            r is Continue ==> final(self).wf() && final(self).level == old(self).level + 1,
            final(self).vaddr == old(self).vaddr,
            final(self).require_user == old(self).require_user,
            forall|mem: spec_fn(u64) -> u64|
                mem(entry_addr(old(self).table, old(self).vaddr, old(self).level as int)) == entry
                    ==> #[trigger] spec_walk(
                    mem,
                    old(self).table,
                    old(self).vaddr,
                    old(self).level as int,
                    old(self).require_user,
                ) == match r {
                    WalkStep::Done(p) => Ok(p),
                    WalkStep::Fault(f) => Err(f),
                    WalkStep::Continue => spec_walk(
                        mem,
                        final(self).table,
                        final(self).vaddr,
                        final(self).level as int,
                        final(self).require_user,
                    ),
                },
    {
        if entry & PTE_PRESENT == 0 {
            return WalkStep::Fault(WalkFault::NotPresent);
        }
        if entry & PTE_HUGE != 0 {
            return WalkStep::Fault(WalkFault::HugePage);
        }
        if self.require_user && entry & PTE_USER == 0 {
            return WalkStep::Fault(WalkFault::NotUser);
        }
        let frame = entry & PTE_ADDR_MASK;
        assert(frame & 0xFFF == 0 && frame < PHYS_LIMIT) by (bit_vector)
            requires
                frame == entry & 0x000F_FFFF_FFFF_F000u64,
                PHYS_LIMIT == 0x0010_0000_0000_0000u64,
        ;
        if self.level == 3 {
            let v = self.vaddr;
            assert(v & 0xFFF <= 0xFFF) by (bit_vector);
            let phys = frame + (v & 0xFFF);
            proof {
                assert forall|mem: spec_fn(u64) -> u64|
                    mem(entry_addr(old(self).table, v, 3)) == entry implies #[trigger] spec_walk(
                    mem,
                    old(self).table,
                    v,
                    3,
                    old(self).require_user,
                ) == Ok::<u64, WalkFault>(phys) by {
                    assert(spec_walk(mem, frame, v, 4, old(self).require_user) == Ok::<
                        u64,
                        WalkFault,
                    >(phys));
                }
            }
            WalkStep::Done(phys)
        } else {
            self.table = frame;
            self.level = self.level + 1;
            WalkStep::Continue
        }
    }
}

/// The end of the lower canonical half and the start of the upper one.
pub const LOWER_HALF_END: u64 = 0x0000_8000_0000_0000;
pub const UPPER_HALF_START: u64 = 0xFFFF_8000_0000_0000;

/// `a` is a canonical virtual address: bits 47 to 63 all equal.
pub open spec fn canonical(a: int) -> bool {
    a < LOWER_HALF_END || a >= UPPER_HALF_START
}

/// The pages a byte range lies in, as `range_pages` reports them.
#[derive(Debug, Clone, Copy, PartialEq, Eq)]
pub enum RangePages {
    /// No bytes, no pages.
    Empty,
    /// The first and the last page start.
    Pages(u64, u64),
    /// The range runs past the end of the address space.
    Wraps,
    /// The range starts at or reaches a non-canonical address, so no page
    /// table can map it.
    NonCanonical,
}

/// The start of the 4 KiB page holding `a`.
pub open spec fn page_start(a: int) -> int {
    a - a % 4096
}

/// Every byte of `[first, last]` is canonical: both ends are, in the same half.
pub open spec fn range_canonical(first: int, last: int) -> bool {
    canonical(first) && canonical(last) && (first < LOWER_HALF_END) == (last < LOWER_HALF_END)
}

/// The pages the `len` bytes from `addr` lie in, as `range_pages` reports them.
pub open spec fn spec_range_pages(addr: u64, len: u64) -> RangePages {
    if len == 0 {
        if canonical(addr as int) {
            RangePages::Empty
        } else {
            RangePages::NonCanonical
        }
    } else if addr + len - 1 > u64::MAX {
        RangePages::Wraps
    } else if !range_canonical(addr as int, addr + len - 1) {
        RangePages::NonCanonical
    } else {
        RangePages::Pages(page_start(addr as int) as u64, page_start(addr + len - 1) as u64)
    }
}

/// The pages the `len` bytes from `addr` lie in. A non-canonical start, or a
/// range that reaches a non-canonical address, is refused.
pub fn range_pages(addr: u64, len: u64) -> (r: RangePages)
    ensures
        r == spec_range_pages(addr, len),
        len == 0 && !canonical(addr as int) ==> r == RangePages::NonCanonical,
        len == 0 && canonical(addr as int) ==> r == RangePages::Empty,
        len > 0 && addr + len - 1 > u64::MAX ==> r == RangePages::Wraps,
        len > 0 && addr + len - 1 <= u64::MAX && !range_canonical(addr as int, addr + len - 1)
            ==> r == RangePages::NonCanonical,
        len > 0 && addr + len - 1 <= u64::MAX && range_canonical(addr as int, addr + len - 1)
            ==> r == RangePages::Pages(
            page_start(addr as int) as u64,
            page_start(addr + len - 1) as u64,
        ),
{
    let start_ok = addr < LOWER_HALF_END || addr >= UPPER_HALF_START;
    if len == 0 {
        if !start_ok {
            return RangePages::NonCanonical;
        }
        return RangePages::Empty;
    }
    if addr > u64::MAX - (len - 1) {
        return RangePages::Wraps;
    }
    let last = addr + (len - 1);
    let last_ok = last < LOWER_HALF_END || last >= UPPER_HALF_START;
    if !start_ok || !last_ok || (addr < LOWER_HALF_END) != (last < LOWER_HALF_END) {
        return RangePages::NonCanonical;
    }
    RangePages::Pages(addr - addr % 4096, last - last % 4096)
}

/// Whether the `len` bytes at `addr` may be handed to the kernel as a user
/// buffer: an empty range may; a range that wraps or is not canonical may
/// not; otherwise each page it lies in is checked with `mapped` (a page walk
/// of the running process's tables), from the first to the last, stopping at
/// the first page that is not mapped. Every page must be mapped.
pub fn user_range_valid<F: Fn(u64) -> bool>(addr: u64, len: u64, mapped: F) -> (ok: bool)
    requires
        forall|p: u64| #[trigger] mapped.requires((p,)),
    ensures
        match spec_range_pages(addr, len) {
            RangePages::Empty => ok,
            RangePages::Wraps => !ok,
            RangePages::NonCanonical => !ok,
            RangePages::Pages(first, last) => {
                &&& ok ==> forall|p: u64|
                    first <= p <= last && (p - first) % 4096 == 0 ==> #[trigger] mapped.ensures(
                        (p,),
                        true,
                    )
                &&& !ok ==> exists|p: u64|
                    first <= p <= last && (p - first) % 4096 == 0 && #[trigger] mapped.ensures(
                        (p,),
                        false,
                    )
            },
        },
{
    match range_pages(addr, len) {
        RangePages::Empty => true,
        RangePages::Wraps => false,
        RangePages::NonCanonical => false,
        RangePages::Pages(first, last) => {
            assert(first % 4096 == 0 && last % 4096 == 0 && first <= last);
            let mut page = first;
            loop
                invariant
                    forall|p: u64| #[trigger] mapped.requires((p,)),
                    spec_range_pages(addr, len) == RangePages::Pages(first, last),
                    first <= page <= last,
                    first % 4096 == 0,
                    last % 4096 == 0,
                    (page - first) % 4096 == 0,
                    forall|p: u64|
                        first <= p < page && (p - first) % 4096 == 0 ==> #[trigger] mapped.ensures(
                            (p,),
                            true,
                        ),
                decreases last - page,
            {
                let here = mapped(page);
                if !here {
                    assert(mapped.ensures((page,), false));
                    return false;
                }
                if page == last {
                    assert(forall|p: u64|
                        first <= p <= last && (p - first) % 4096 == 0 ==> #[trigger] mapped.ensures(
                            (p,),
                            true,
                        ));
                    return true;
                }
                assert(page + 4096 <= last);
                page = page + 4096;
            }
        },
    }
}

} // verus!
