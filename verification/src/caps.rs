use vstd::prelude::*;

use crate::process::MAX_PROCESSES;

verus! {

/// Capabilities each process slot may hold.
pub const MAX_CAPS: usize = 16;

/// A capability: an I/O port, an interrupt line, an endpoint, or the
/// framebuffer.
#[derive(Debug, Clone, Copy, PartialEq, Eq, Structural)]
pub enum Cap {
    Port(u16),
    Irq(u8),
    Endpoint(usize),
    Framebuffer,
}

/// The capability a `grant_cap` request names: kind 0 is a port, 1 an
/// interrupt line, 2 an endpoint (each named by the argument, truncated to
/// its width), 3 the framebuffer; any other kind names none.
pub open spec fn spec_decode_cap(kind: u64, arg: u64) -> Option<Cap> {
    if kind == 0 {
        Some(Cap::Port(arg as u16))
    } else if kind == 1 {
        Some(Cap::Irq(arg as u8))
    } else if kind == 2 {
        Some(Cap::Endpoint(arg as usize))
    } else if kind == 3 {
        Some(Cap::Framebuffer)
    } else {
        None
    }
}

/// Decodes the kind and argument of a `grant_cap` request.
pub fn decode_cap(kind: u64, arg: u64) -> (c: Option<Cap>)
    ensures
        c == spec_decode_cap(kind, arg),
{
    match kind {
        0 => Some(Cap::Port(arg as u16)),
        1 => Some(Cap::Irq(arg as u8)),
        2 => Some(Cap::Endpoint(arg as usize)),
        3 => Some(Cap::Framebuffer),
        _ => None,
    }
}

/// The capability tables of all process slots: slot `s` owns the
/// `MAX_CAPS` entries from `s * MAX_CAPS` on, each empty or holding one
/// capability.
pub struct CapTable {
    entries: Vec<Option<Cap>>,
}

impl CapTable {
    /// One table of `MAX_CAPS` entries per process slot.
    pub closed spec fn wf(&self) -> bool {
        self.entries@.len() == MAX_PROCESSES * MAX_CAPS
    }

    /// Entry `k` of the table of slot `slot`.
    pub closed spec fn entry(&self, slot: int, k: int) -> Option<Cap> {
        self.entries@[slot * MAX_CAPS + k]
    }

    /// Whether the process in slot `slot` holds `cap`.
    pub open spec fn holds(&self, slot: int, cap: Cap) -> bool {
        &&& 0 <= slot < MAX_PROCESSES
        &&& exists|k: int| 0 <= k < MAX_CAPS && #[trigger] self.entry(slot, k) == Some(cap)
    }

    /// Every entry of the table of slot `slot` is taken.
    pub open spec fn is_full(&self, slot: int) -> bool {
        forall|k: int| 0 <= k < MAX_CAPS ==> #[trigger] self.entry(slot, k) is Some
    }

    /// Slot `slot` can be granted `cap`: it is a process slot, and either
    /// it holds `cap` already or its table has a free entry.
    pub open spec fn can_grant(&self, slot: usize, cap: Cap) -> bool {
        slot < MAX_PROCESSES && (self.holds(slot as int, cap) || !self.is_full(slot as int))
    }

    /// `self` holds what `before` held, plus `cap` in slot `slot`.
    pub open spec fn grants_after(&self, before: CapTable, slot: usize, cap: Cap) -> bool {
        forall|s: int, c: Cap|
            #[trigger] self.holds(s, c) == (before.holds(s, c) || (s == slot && c == cap))
    }

    /// `self` and `other` hold the same capabilities in every slot.
    pub open spec fn same_grants(&self, other: CapTable) -> bool {
        forall|s: int, c: Cap| #[trigger] self.holds(s, c) == other.holds(s, c)
    }

    /// Tables in which no slot holds anything.
    pub fn new() -> (t: CapTable)
        ensures
            t.wf(),
            forall|s: int, c: Cap| !#[trigger] t.holds(s, c),
    {
        let mut entries: Vec<Option<Cap>> = Vec::new();
        let mut i: usize = 0;
        while i < MAX_PROCESSES * MAX_CAPS
            invariant
                i <= MAX_PROCESSES * MAX_CAPS,
                entries@.len() == i,
                forall|j: int| 0 <= j < i ==> #[trigger] entries@[j] is None,
            decreases MAX_PROCESSES * MAX_CAPS - i,
        {
            entries.push(None);
            i = i + 1;
        }
        let t = CapTable { entries };
        assert forall|s: int, c: Cap| !#[trigger] t.holds(s, c) by {
            if t.holds(s, c) {
                let k = choose|k: int| 0 <= k < MAX_CAPS && #[trigger] t.entry(s, k) == Some(c);
                assert(t.entries@[s * MAX_CAPS + k] is None);
            }
        }
        t
    }

    /// Whether the process in slot `slot` holds `cap`.
    pub fn has(&self, slot: usize, cap: Cap) -> (b: bool)
        requires
            self.wf(),
        ensures
            b == self.holds(slot as int, cap),
    {
        if slot >= MAX_PROCESSES {
            return false;
        }
        let mut k: usize = 0;
        while k < MAX_CAPS
            invariant
                slot < MAX_PROCESSES,
                self.wf(),
                k <= MAX_CAPS,
                forall|j: int| 0 <= j < k ==> #[trigger] self.entry(slot as int, j) != Some(cap),
            decreases MAX_CAPS - k,
        {
            let held = match self.entries[slot * MAX_CAPS + k] {
                Some(c) => c == cap,
                None => false,
            };
            if held {
                assert(self.entry(slot as int, k as int) == Some(cap));
                return true;
            }
            k = k + 1;
        }
        false
    }

    /// Gives the process in slot `slot` the capability `cap`, in the first
    /// free entry of its table: true when it holds it afterwards; false,
    /// with nothing changed, for a slot that is not a process slot or whose
    /// table is full.
    pub fn grant(&mut self, slot: usize, cap: Cap) -> (ok: bool)
        requires
            old(self).wf(),
        ensures
            final(self).wf(),
            ok == old(self).can_grant(slot, cap),
            ok ==> final(self).grants_after(*old(self), slot, cap),
            !ok ==> final(self).same_grants(*old(self)),
    {
        if slot >= MAX_PROCESSES {
            return false;
        }
        if self.has(slot, cap) {
            return true;
        }
        let mut k: usize = 0;
        while k < MAX_CAPS
            invariant
                slot < MAX_PROCESSES,
                self.wf(),
                *self == *old(self),
                !old(self).holds(slot as int, cap),
                k <= MAX_CAPS,
                forall|j: int| 0 <= j < k ==> #[trigger] self.entry(slot as int, j) is Some,
            decreases MAX_CAPS - k,
        {
            if self.entries[slot * MAX_CAPS + k].is_none() {
                let ghost before = *self;
                self.entries.set(slot * MAX_CAPS + k, Some(cap));
                assert(!before.is_full(slot as int)) by {
                    assert(before.entry(slot as int, k as int) is None);
                }
                assert forall|s: int, c: Cap| #[trigger] self.holds(s, c) == (before.holds(s, c) || (s
                    == slot && c == cap)) by {
                    if before.holds(s, c) {
                        let j = choose|j: int| 0 <= j < MAX_CAPS && #[trigger] before.entry(s, j) == Some(c);
                        assert(self.entry(s, j) == Some(c));
                    }
                    if s == slot && c == cap {
                        assert(self.entry(s, k as int) == Some(c));
                    }
                    if self.holds(s, c) {
                        let j = choose|j: int| 0 <= j < MAX_CAPS && #[trigger] self.entry(s, j) == Some(c);
                        if !(s == slot && j == k) {
                            assert(before.entry(s, j) == Some(c));
                        }
                    }
                }
                return true;
            }
            k = k + 1;
        }
        assert(self.is_full(slot as int));
        false
    }

    /// Takes every capability away from the process in slot `slot` (its
    /// slot is being freed); the other slots keep theirs.
    pub fn revoke_all(&mut self, slot: usize)
        requires
            old(self).wf(),
        ensures
            final(self).wf(),
            forall|s: int, c: Cap|
                #[trigger] final(self).holds(s, c) == (old(self).holds(s, c) && s != slot),
    {
        if slot >= MAX_PROCESSES {
            return;
        }
        let mut k: usize = 0;
        while k < MAX_CAPS
            invariant
                slot < MAX_PROCESSES,
                self.wf(),
                k <= MAX_CAPS,
                forall|j: int| 0 <= j < k ==> #[trigger] self.entry(slot as int, j) is None,
                forall|s: int, j: int|
                    0 <= s < MAX_PROCESSES && s != slot && 0 <= j < MAX_CAPS ==> #[trigger] self.entry(s, j)
                        == old(self).entry(s, j),
                forall|j: int| k <= j < MAX_CAPS ==> #[trigger] self.entry(slot as int, j) == old(self).entry(slot as int, j),
            decreases MAX_CAPS - k,
        {
            let ghost before = *self;
            self.entries.set(slot * MAX_CAPS + k, None);
            assert forall|s: int, j: int|
                0 <= s < MAX_PROCESSES && 0 <= j < MAX_CAPS && !(s == slot && j == k) implies #[trigger] self.entry(s, j)
                == before.entry(s, j) by {
                assert(s * MAX_CAPS + j != slot * MAX_CAPS + k);
            }
            assert(self.entry(slot as int, k as int) is None);
            k = k + 1;
        }
        assert forall|s: int, c: Cap|
            #[trigger] self.holds(s, c) == (old(self).holds(s, c) && s != slot) by {
            if self.holds(s, c) {
                let j = choose|j: int| 0 <= j < MAX_CAPS && #[trigger] self.entry(s, j) == Some(c);
                assert(old(self).entry(s, j) == Some(c));
            }
            if old(self).holds(s, c) && s != slot {
                let j = choose|j: int| 0 <= j < MAX_CAPS && #[trigger] old(self).entry(s, j) == Some(c);
                assert(self.entry(s, j) == Some(c));
            }
        }
    }
}

} // verus!
