use vstd::prelude::*;

use crate::process::{
    eligible, law_schedule_round_robin, rr, schedule, spec_schedule, ProcessTable, State, MAX_PROCESSES,
};

verus! {

/// Interrupt vector of the first line of the primary PIC.
pub const PIC_1_OFFSET: u8 = 32;
/// Interrupt vector of the first line of the secondary PIC.
pub const PIC_2_OFFSET: u8 = 40;
/// Timer ticks a user process runs before a reschedule is considered.
pub const TIME_QUANTUM: u64 = 100;
/// Port of the PS/2 keyboard's data register.
pub const KEYBOARD_DATA_PORT: u16 = 0x60;

/// Hardware interrupts the kernel handles, on the primary PIC.
#[derive(Debug, Clone, Copy, PartialEq, Eq)]
pub enum InterruptIndex {
    Timer,
    Keyboard,
}

impl InterruptIndex {
    /// The interrupt vector: the timer on the PIC's first line, the keyboard
    /// on the next.
    pub open spec fn vector(self) -> u8 {
        match self {
            InterruptIndex::Timer => PIC_1_OFFSET,
            InterruptIndex::Keyboard => (PIC_1_OFFSET + 1) as u8,
        }
    }

    /// The interrupt vector.
    pub fn as_u8(self) -> (v: u8)
        ensures
            v == self.vector(),
    {
        match self {
            InterruptIndex::Timer => PIC_1_OFFSET,
            InterruptIndex::Keyboard => PIC_1_OFFSET + 1,
        }
    }

    /// The vector as an index into the interrupt descriptor table.
    pub fn as_usize(self) -> (v: usize)
        ensures
            v == self.vector() as usize,
    {
        self.as_u8() as usize
    }
}

/// On timer tick number `ticks` (counted before this one), with slot
/// `current` running: every `TIME_QUANTUM` ticks a running user process
/// hands over to the next ready slot after it, when that is another slot.
pub open spec fn spec_timer_reschedule(table: ProcessTable, ticks: u64, current: usize) -> Option<usize> {
    if current != 0 && ticks > 0 && ticks % TIME_QUANTUM == 0 {
        match spec_schedule(table, current as int) {
            Some(next) => if next != current {
                Some(next)
            } else {
                None
            },
            None => None,
        }
    } else {
        None
    }
}

/// The slot a timer tick asks to switch to, if any; the switch itself
/// happens at the next syscall.
pub fn timer_reschedule(table: &ProcessTable, ticks: u64, current: usize) -> (r: Option<usize>)
    requires
        table.wf(),
        current <= usize::MAX - MAX_PROCESSES,
    ensures
        r == spec_timer_reschedule(*table, ticks, current),
{
    if current != 0 && ticks > 0 && ticks % TIME_QUANTUM == 0 {
        match schedule(table, current) {
            Some(next) => {
                if next != current {
                    Some(next)
                } else {
                    None
                }
            },
            None => None,
        }
    } else {
        None
    }
}

/// A reschedule never asks the running slot to switch to itself, never
/// comes from the kernel's slot 0, and only happens on a quantum boundary.
pub proof fn law_timer_reschedule(table: ProcessTable, ticks: u64, current: usize)
    ensures
        spec_timer_reschedule(table, ticks, current) matches Some(next) ==> {
            &&& next != current
            &&& current != 0
            &&& ticks % TIME_QUANTUM == 0 && ticks > 0
            &&& spec_schedule(table, current as int) == Some(next)
        },
{
}

/// On a quantum boundary the timer hands a running user process's CPU to
/// the round-robin choice after it, going round the table: whenever that
/// choice is another slot, the timer asks for it. So when any other slot
/// holds a ready process, the timer asks for a ready process, the first one
/// met going round the table from the slot after `current`, whether its slot
/// number is above or below `current`.
pub proof fn law_timer_hands_over_round_robin(table: ProcessTable, ticks: u64, current: usize)
    requires
        current != 0,
        ticks > 0,
        ticks % TIME_QUANTUM == 0,
    ensures
        spec_schedule(table, current as int) is Some && spec_schedule(table, current as int)->Some_0
            != current ==> spec_timer_reschedule(table, ticks, current) == spec_schedule(
            table,
            current as int,
        ),
        (exists|j: int| 0 <= j < MAX_PROCESSES && j != current && #[trigger] eligible(table, j, false))
            ==> (spec_timer_reschedule(table, ticks, current) matches Some(next) && {
            &&& next != current
            &&& next < MAX_PROCESSES
            &&& table.slot(next as int) is Some
            &&& table.slot(next as int)->Some_0.state == State::Ready
            &&& exists|k: int|
                1 <= k <= MAX_PROCESSES && next == #[trigger] rr(current as int, k) && forall|m: int|
                    1 <= m < k ==> !eligible(table, #[trigger] rr(current as int, m), false)
        }),
{
    law_schedule_round_robin(table, current as int);
    if exists|j: int| 0 <= j < MAX_PROCESSES && j != current && #[trigger] eligible(table, j, false) {
        let j = choose|j: int| 0 <= j < MAX_PROCESSES && j != current && #[trigger] eligible(table, j, false);
        let next = spec_schedule(table, current as int)->Some_0;
        if next == current {
            let k = choose|k: int|
                1 <= k <= MAX_PROCESSES && next == #[trigger] rr(current as int, k) && forall|m: int|
                    1 <= m < k ==> !eligible(table, #[trigger] rr(current as int, m), false);
            // Coming back to `current` takes a whole round, so `j` was passed on the way.
            assert(current < MAX_PROCESSES);
            assert(k == MAX_PROCESSES);
            let mj = (j - current + MAX_PROCESSES) % (MAX_PROCESSES as int);
            assert(1 <= mj < MAX_PROCESSES);
            assert(rr(current as int, mj) == j);
            assert(!eligible(table, rr(current as int, mj), false));
            assert(false);
        }
        assert(next != current);
        assert(spec_timer_reschedule(table, ticks, current) == Some(next));
        assert(next < MAX_PROCESSES);
        assert(table.slot(next as int)->Some_0.state == State::Ready);
        let k = choose|k: int|
            1 <= k <= MAX_PROCESSES && next == #[trigger] rr(current as int, k) && forall|m: int|
                1 <= m < k ==> !eligible(table, #[trigger] rr(current as int, m), false);
        assert(1 <= k <= MAX_PROCESSES && next == rr(current as int, k));
    }
}

/// Exit codes the test harness writes to QEMU's debug-exit port.
#[derive(Debug, Clone, Copy, PartialEq, Eq)]
pub enum QemuExitCode {
    Success,
    Failed,
}

/// The debug-exit port.
pub const QEMU_EXIT_PORT: u16 = 0xF4;

impl QemuExitCode {
    /// The value written to the debug-exit port.
    pub fn code(self) -> (v: u32)
        ensures
            v == match self {
                QemuExitCode::Success => 0x10u32,
                QemuExitCode::Failed => 0x11u32,
            },
    {
        match self {
            QemuExitCode::Success => 0x10,
            QemuExitCode::Failed => 0x11,
        }
    }
}

/// The value written to the ACPI PM1a control register to power off
/// (the sleep-enable bit).
pub const ACPI_SLEEP_ENABLE: u16 = 0x2000;

/// Maps physical memory for the ACPI table parser through the kernel's
/// direct mapping of all physical memory.
#[derive(Debug, Clone, Copy, PartialEq, Eq)]
pub struct UmbraAcpiHandler {
    pub physical_memory_offset: u64,
}

impl UmbraAcpiHandler {
    /// A handler for the direct mapping at `physical_memory_offset`.
    pub fn new(physical_memory_offset: u64) -> (h: UmbraAcpiHandler)
        ensures
            h.physical_memory_offset == physical_memory_offset,
    {
        UmbraAcpiHandler { physical_memory_offset }
    }

    /// The virtual address at which physical address `physical_address` is
    /// mapped.
    pub fn virtual_address(&self, physical_address: usize) -> (v: usize)
        requires
            physical_address + self.physical_memory_offset <= usize::MAX,
        ensures
            v == physical_address + self.physical_memory_offset,
    {
        physical_address + self.physical_memory_offset as usize
    }
}

/// Whether ACPI power-off can be attempted: the physical memory offset has
/// been recorded (it is never 0 once the kernel has set it).
pub fn acpi_ready(physical_memory_offset: u64) -> (b: bool)
    ensures
        b == (physical_memory_offset != 0),
{
    physical_memory_offset != 0
}

} // verus!
