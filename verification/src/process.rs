use vstd::prelude::*;

verus! {

/// Number of slots in the process table.
pub const MAX_PROCESSES: usize = 16;
/// Number of 4 KiB pages in each kernel stack.
pub const KERNEL_STACK_PAGES: usize = 16;
/// Size in bytes of each kernel stack.
pub const KERNEL_STACK_SIZE: usize = 65536;
/// Top of the user stack set up by `spawn` (one page above its base).
pub const USER_STACK_TOP: u64 = 0x5555_0000_1000;
/// The interrupt-enable bit of RFLAGS.
pub const RFLAGS_IF: u64 = 0x200;

/// Lifecycle state of a process.
#[derive(Debug, Clone, Copy, PartialEq, Eq, Structural)]
pub enum State {
    Ready,
    Running,
    Blocked,
    Exited,
}

/// What a blocked process is waiting for.
#[derive(Debug, Clone, Copy, PartialEq, Eq, Structural)]
pub enum Wait {
    /// A message delivered to the endpoint with this id.
    Message(usize),
    /// A reply posted on the endpoint with this id.
    Reply(usize),
}

/// A process identifier.
#[derive(Debug, Clone, Copy, PartialEq, Eq, PartialOrd, Ord, Structural)]
pub struct Pid(pub u64);

/// The identifier counter after one allocation from `n` (wrapping).
pub open spec fn pid_counter_after(n: u64) -> u64 {
    if n == u64::MAX {
        0
    } else {
        (n + 1) as u64
    }
}

/// The counter after `k` allocations starting from `n`.
pub open spec fn pid_counter_after_k(n: u64, k: nat) -> u64
    decreases k,
{
    if k == 0 {
        n
    } else {
        pid_counter_after(pid_counter_after_k(n, (k - 1) as nat))
    }
}

impl Pid {
    /// Takes the next identifier from the counter `next` and advances it
    /// (wrapping, as an atomic `fetch_add` does).
    pub fn allocate(next: &mut u64) -> (pid: Pid)
        ensures
            pid.0 == *old(next),
            *final(next) == pid_counter_after(*old(next)),
    {
        let id = *next;
        *next = next.wrapping_add(1);
        Pid(id)
    }
}

/// Callee-saved registers of a suspended kernel context.
#[derive(Debug, Clone, Copy)]
pub struct SavedRegs {
    pub r15: u64,
    pub r14: u64,
    pub r13: u64,
    pub r12: u64,
    pub rbp: u64,
    pub rbx: u64,
}

impl Default for SavedRegs {
    fn default() -> (r: SavedRegs)
        ensures
            r.r15 == 0 && r.r14 == 0 && r.r13 == 0 && r.r12 == 0 && r.rbp == 0 && r.rbx == 0,
    {
        SavedRegs { r15: 0, r14: 0, r13: 0, r12: 0, rbp: 0, rbx: 0 }
    }
}

/// The frame the CPU pushes on an interrupt and `iretq` pops.
#[derive(Debug, Clone, Copy)]
pub struct InterruptFrame {
    pub rip: u64,
    pub cs: u64,
    pub rflags: u64,
    pub rsp: u64,
    pub ss: u64,
}

impl Default for InterruptFrame {
    fn default() -> (r: InterruptFrame)
        ensures
            r.rip == 0 && r.cs == 0 && r.rflags == 0 && r.rsp == 0 && r.ss == 0,
    {
        InterruptFrame { rip: 0, cs: 0, rflags: 0, rsp: 0, ss: 0 }
    }
}

/// A process: its identity, state (and, when blocked, what it waits for),
/// address space (the physical address of its PML4) and kernel stack (top
/// and saved stack pointer).
#[derive(Debug)]
pub struct Process {
    pub pid: Pid,
    pub state: State,
    pub blocked_on: Option<Wait>,
    pub cr3: u64,
    pub kernel_stack_top: u64,
    pub kernel_rsp: u64,
    pub saved: SavedRegs,
    pub interrupt_frame: InterruptFrame,
}

impl Process {
    /// A freshly spawned process: ready to run, waiting for nothing, zeroed
    /// saved registers and no interrupt frame recorded yet.
    pub fn spawned(pid: Pid, cr3: u64, kernel_stack_top: u64, kernel_rsp: u64) -> (p:
        Process)
        ensures
            p.pid == pid,
            p.state == State::Ready,
            p.blocked_on is None,
            p.cr3 == cr3,
            p.kernel_stack_top == kernel_stack_top,
            p.kernel_rsp == kernel_rsp,
            p.saved.r15 == 0 && p.saved.r14 == 0 && p.saved.r13 == 0,
            p.saved.r12 == 0 && p.saved.rbp == 0 && p.saved.rbx == 0,
            p.interrupt_frame.rip == 0 && p.interrupt_frame.cs == 0,
            p.interrupt_frame.rflags == 0 && p.interrupt_frame.rsp == 0,
            p.interrupt_frame.ss == 0,
    {
        Process {
            pid,
            state: State::Ready,
            blocked_on: None,
            cr3,
            kernel_stack_top,
            kernel_rsp,
            saved: SavedRegs::default(),
            interrupt_frame: InterruptFrame::default(),
        }
    }
}

/// Fixed-size table of process slots plus the index of the running one.
pub struct ProcessTable {
    slots: Vec<Option<Process>>,
    current: Option<usize>,
}

impl ProcessTable {
    /// The table has exactly `MAX_PROCESSES` slots.
    pub closed spec fn wf(&self) -> bool {
        self.slots@.len() == MAX_PROCESSES
    }

    /// All slots, in index order.
    pub closed spec fn slots(&self) -> Seq<Option<Process>> {
        self.slots@
    }

    /// A well-formed table has `MAX_PROCESSES` slots.
    pub proof fn lemma_slot_count(&self)
        requires
            self.wf(),
        ensures
            self.slots().len() == MAX_PROCESSES,
    {
    }

    /// The process in slot `i`, if any.
    pub open spec fn slot(&self, i: int) -> Option<Process> {
        self.slots()[i]
    }

    /// Index of the running process, if one has been set.
    pub closed spec fn current_spec(&self) -> Option<usize> {
        self.current
    }

    /// An empty table with no current process.
    pub fn new() -> (t: ProcessTable)
        ensures
            t.wf(),
            t.current_spec() is None,
            forall|i: int| 0 <= i < MAX_PROCESSES ==> t.slot(i) is None,
    {
        let mut slots: Vec<Option<Process>> = Vec::new();
        let mut i: usize = 0;
        while i < MAX_PROCESSES
            invariant
                i <= MAX_PROCESSES,
                slots@.len() == i,
                forall|k: int| 0 <= k < i ==> slots@[k] is None,
            decreases MAX_PROCESSES - i,
        {
            slots.push(None);
            i = i + 1;
        }
        ProcessTable { slots, current: None }
    }

    /// The running process, if the current index names an occupied slot.
    pub fn current(&self) -> (r: Option<&Process>)
        requires
            self.wf(),
            self.current_spec() matches Some(i) ==> i < MAX_PROCESSES,
        ensures
            match self.current_spec() {
                Some(i) => match r {
                    Some(p) => self.slot(i as int) == Some(*p),
                    None => self.slot(i as int) is None,
                },
                None => r is None,
            },
    {
        match self.current {
            Some(i) => self.slots[i].as_ref(),
            None => None,
        }
    }

    /// Mutable access to the running process; changes stay in its slot.
    pub fn current_mut(&mut self) -> (r: Option<&mut Process>)
        requires
            old(self).wf(),
            old(self).current_spec() matches Some(i) ==> i < MAX_PROCESSES,
        ensures
            final(self).current_spec() == old(self).current_spec(),
            match old(self).current_spec() {
                Some(i) => match r {
                    Some(p) => {
                        &&& old(self).slot(i as int) == Some(*p)
                        &&& final(self).slots() == old(self).slots().update(i as int, Some(*final(p)))
                    },
                    None => old(self).slot(i as int) is None && final(self).slots() == old(self).slots(),
                },
                None => r is None && final(self).slots() == old(self).slots(),
            },
    {
        match self.current {
            Some(i) => self.slots[i].as_mut(),
            None => None,
        }
    }

    /// Index of the running process.
    pub fn current_index(&self) -> (r: Option<usize>)
        ensures
            r == self.current_spec(),
    {
        self.current
    }

    /// Records which slot is running.
    pub fn set_current(&mut self, index: usize)
        ensures
            final(self).current_spec() == Some(index),
            final(self).slots() == old(self).slots(),
            final(self).wf() == old(self).wf(),
    {
        self.current = Some(index);
    }

    /// Puts `process` into the lowest free slot and returns its index.
    pub fn insert(&mut self, process: Process) -> (idx: usize)
        requires
            old(self).wf(),
            exists|i: int| 0 <= i < MAX_PROCESSES && #[trigger] old(self).slot(i) is None,
        ensures
            final(self).wf(),
            idx < MAX_PROCESSES,
            old(self).slot(idx as int) is None,
            forall|j: int| 0 <= j < idx ==> #[trigger] old(self).slot(j) is Some,
            final(self).slots() == old(self).slots().update(idx as int, Some(process)),
            final(self).slot(idx as int) == Some(process),
            forall|j: int| 0 <= j < MAX_PROCESSES && j != idx ==> #[trigger] final(self).slot(j) == old(self).slot(j),
            final(self).current_spec() == old(self).current_spec(),
    {
        let mut i: usize = 0;
        while i < MAX_PROCESSES
            invariant
                i <= MAX_PROCESSES,
                self.wf(),
                *self == *old(self),
                forall|j: int| 0 <= j < i ==> #[trigger] self.slots@[j] is Some,
            decreases MAX_PROCESSES - i,
        {
            if self.slots[i].is_none() {
                self.slots[i] = Some(process);
                return i;
            }
            i = i + 1;
        }
        proof {
            let w = choose|w: int| 0 <= w < MAX_PROCESSES && #[trigger] old(self).slot(w) is None;
            assert(self.slots@[w] is Some);
        }
        0
    }

    /// The process in slot `index`, if any.
    pub fn get(&self, index: usize) -> (r: Option<&Process>)
        requires
            self.wf(),
        ensures
            match r {
                Some(p) => index < MAX_PROCESSES && self.slot(index as int) == Some(*p),
                None => index >= MAX_PROCESSES || self.slot(index as int) is None,
            },
    {
        if index < MAX_PROCESSES {
            self.slots[index].as_ref()
        } else {
            None
        }
    }

    /// Mutable access to the process in slot `index`; changes stay in that slot.
    pub fn get_mut(&mut self, index: usize) -> (r: Option<&mut Process>)
        requires
            old(self).wf(),
        ensures
            final(self).current_spec() == old(self).current_spec(),
            match r {
                Some(p) => {
                    &&& index < MAX_PROCESSES
                    &&& old(self).slot(index as int) == Some(*p)
                    &&& final(self).slots() == old(self).slots().update(index as int, Some(*final(p)))
                },
                None => {
                    &&& index >= MAX_PROCESSES || old(self).slot(index as int) is None
                    &&& final(self).slots() == old(self).slots()
                },
            },
    {
        if index < MAX_PROCESSES {
            self.slots[index].as_mut()
        } else {
            None
        }
    }

    /// Empties slot `index` and returns what it held.
    pub fn remove(&mut self, index: usize) -> (r: Option<Process>)
        requires
            old(self).wf(),
        ensures
            final(self).wf(),
            final(self).current_spec() == old(self).current_spec(),
            index < MAX_PROCESSES ==> r == old(self).slot(index as int) && final(self).slots()
                == old(self).slots().update(index as int, None),
            index >= MAX_PROCESSES ==> r is None && final(self).slots() == old(self).slots(),
    {
        if index < MAX_PROCESSES {
            self.slots[index].take()
        } else {
            None
        }
    }

    /// The occupied slots, as (index, process) pairs in index order.
    pub fn iter(&self) -> (v: Vec<(usize, &Process)>)
        requires
            self.wf(),
        ensures
            forall|k: int|
                0 <= k < v@.len() ==> {
                    let (i, p) = #[trigger] v@[k];
                    i < MAX_PROCESSES && self.slot(i as int) == Some(*p)
                },
            forall|k1: int, k2: int| 0 <= k1 < k2 < v@.len() ==> v@[k1].0 < v@[k2].0,
            forall|i: int|
                0 <= i < MAX_PROCESSES && #[trigger] self.slot(i) is Some ==> exists|k: int|
                    0 <= k < v@.len() && v@[k].0 == i,
    {
        let mut v: Vec<(usize, &Process)> = Vec::new();
        let mut i: usize = 0;
        while i < MAX_PROCESSES
            invariant
                i <= MAX_PROCESSES,
                self.wf(),
                forall|k: int|
                    0 <= k < v@.len() ==> {
                        let (j, p) = #[trigger] v@[k];
                        j < i && self.slot(j as int) == Some(*p)
                    },
                forall|k1: int, k2: int| 0 <= k1 < k2 < v@.len() ==> v@[k1].0 < v@[k2].0,
                forall|j: int|
                    0 <= j < i && #[trigger] self.slot(j) is Some ==> exists|k: int|
                        0 <= k < v@.len() && v@[k].0 == j,
            decreases MAX_PROCESSES - i,
        {
            let ghost old_v = v@;
            match self.slots[i].as_ref() {
                Some(p) => {
                    v.push((i, p));
                    assert forall|j: int|
                        0 <= j < i + 1 && #[trigger] self.slot(j) is Some implies exists|k: int|
                        0 <= k < v@.len() && v@[k].0 == j by {
                        if j == i {
                            assert(v@[v@.len() - 1].0 == j);
                        } else {
                            let k = choose|k: int| 0 <= k < old_v.len() && old_v[k].0 == j;
                            assert(v@[k] == old_v[k]);
                        }
                    }
                },
                None => {},
            }
            i = i + 1;
        }
        v
    }
}

/// Slot `i` holds a process that is ready to run; with `need_frame`, one
/// that has also been preempted before (a saved interrupt frame with a
/// non-zero instruction pointer).
pub open spec fn eligible(table: ProcessTable, i: int, need_frame: bool) -> bool {
    &&& table.slot(i) is Some
    &&& table.slot(i)->Some_0.state == State::Ready
    &&& need_frame ==> table.slot(i)->Some_0.interrupt_frame.rip != 0
}

/// Position `k` steps after `after` going round the table.
pub open spec fn rr(after: int, k: int) -> int {
    (after + k) % (MAX_PROCESSES as int)
}

/// The first eligible slot among `(after + k) % MAX_PROCESSES` for
/// `k = i, i + 1, ..., MAX_PROCESSES`.
pub open spec fn first_eligible(table: ProcessTable, after: int, i: int, need_frame: bool) -> Option<
    usize,
>
    decreases MAX_PROCESSES + 1 - i,
{
    if i < 1 || i > MAX_PROCESSES {
        None
    } else if eligible(table, rr(after, i), need_frame) {
        Some((rr(after, i)) as usize)
    } else {
        first_eligible(table, after, i + 1, need_frame)
    }
}

/// Round-robin choice: the first ready slot after `after_idx`, scanning the
/// whole table once and ending with `after_idx` itself.
pub open spec fn spec_schedule(table: ProcessTable, after_idx: int) -> Option<usize> {
    first_eligible(table, after_idx, 1, false)
}

/// The first ready slot after `after_idx` in round-robin order (ending with
/// `after_idx`'s own slot), or `None` when no process is ready.
pub fn schedule(table: &ProcessTable, after_idx: usize) -> (r: Option<usize>)
    requires
        table.wf(),
        after_idx <= usize::MAX - MAX_PROCESSES,
    ensures
        r == spec_schedule(*table, after_idx as int),
{
    scan_eligible(table, after_idx, false)
}

fn scan_eligible(table: &ProcessTable, after_idx: usize, need_frame: bool) -> (r: Option<usize>)
    requires
        table.wf(),
        after_idx <= usize::MAX - MAX_PROCESSES,
    ensures
        r == first_eligible(*table, after_idx as int, 1, need_frame),
{
    let mut i: usize = 1;
    while i <= MAX_PROCESSES
        invariant
            1 <= i <= MAX_PROCESSES + 1,
            table.wf(),
            after_idx <= usize::MAX - MAX_PROCESSES,
            first_eligible(*table, after_idx as int, i as int, need_frame) == first_eligible(
                *table,
                after_idx as int,
                1,
                need_frame,
            ),
        decreases MAX_PROCESSES + 1 - i,
    {
        let idx = (after_idx + i) % MAX_PROCESSES;
        match table.get(idx) {
            Some(p) => {
                if p.state == State::Ready && (!need_frame || p.interrupt_frame.rip != 0) {
                    return Some(idx);
                }
            },
            None => {},
        }
        i = i + 1;
    }
    None
}

/// The slot to preempt to from the running slot `current`: the first
/// ready, previously preempted slot after it in round-robin order, unless
/// `current` is the kernel's slot 0 or the search comes back to `current`.
pub open spec fn spec_preempt_target(table: ProcessTable, current: int) -> Option<usize> {
    if current == 0 {
        None
    } else {
        match first_eligible(table, current, 1, true) {
            Some(idx) => if idx == current {
                None
            } else {
                Some(idx)
            },
            None => None,
        }
    }
}

/// Decides whether a timer preemption of slot `current` switches, and to
/// which slot.
pub fn preempt_target(table: &ProcessTable, current: usize) -> (r: Option<usize>)
    requires
        table.wf(),
        current <= usize::MAX - MAX_PROCESSES,
    ensures
        r == spec_preempt_target(*table, current as int),
{
    if current == 0 {
        return None;
    }
    match scan_eligible(table, current, true) {
        Some(idx) => if idx == current {
            None
        } else {
            Some(idx)
        },
        None => None,
    }
}

/// Whether slot `idx` holds a process that has been preempted before.
pub fn has_valid_interrupt_frame(table: &ProcessTable, idx: usize) -> (b: bool)
    requires
        table.wf(),
    ensures
        b == (idx < MAX_PROCESSES && table.slot(idx as int) is Some && table.slot(
            idx as int,
        )->Some_0.interrupt_frame.rip != 0),
{
    match table.get(idx) {
        Some(p) => p.interrupt_frame.rip != 0,
        None => false,
    }
}

/// Marks the process in slot `index` as exited; an empty or out-of-range
/// slot is left alone.
pub fn exit(table: &mut ProcessTable, index: usize)
    requires
        old(table).wf(),
    ensures
        final(table).wf(),
        final(table).current_spec() == old(table).current_spec(),
        forall|j: int|
            0 <= j < MAX_PROCESSES && j != index ==> final(table).slot(j) == old(table).slot(j),
        index < MAX_PROCESSES && old(table).slot(index as int) is Some ==> {
            let p0 = old(table).slot(index as int)->Some_0;
            let p1 = final(table).slot(index as int)->Some_0;
            &&& final(table).slot(index as int) is Some
            &&& p1.state == State::Exited
            &&& p1.blocked_on == p0.blocked_on
            &&& p1.pid == p0.pid && p1.cr3 == p0.cr3 && p1.kernel_stack_top == p0.kernel_stack_top
            &&& p1.kernel_rsp == p0.kernel_rsp && p1.saved == p0.saved
            &&& p1.interrupt_frame == p0.interrupt_frame
        },
        !(index < MAX_PROCESSES && old(table).slot(index as int) is Some) ==> final(table).slots()
            == old(table).slots(),
{
    match table.get_mut(index) {
        Some(p) => {
            p.state = State::Exited;
        },
        None => {},
    }
    proof {
        assert(forall|j: int| 0 <= j < MAX_PROCESSES ==> table.slots()[j] == table.slot(j));
    }
}

/// The process in slot `index` with its state replaced by `state` and what
/// it waits for by `wait`; an empty or out-of-range slot is left alone.
pub open spec fn with_state_and_wait(
    old_table: ProcessTable,
    new_table: ProcessTable,
    index: usize,
    state: State,
    wait: Option<Wait>,
) -> bool {
    &&& new_table.current_spec() == old_table.current_spec()
    &&& forall|j: int|
        0 <= j < MAX_PROCESSES && j != index ==> new_table.slot(j) == old_table.slot(j)
    &&& index < MAX_PROCESSES && old_table.slot(index as int) is Some ==> {
        let p0 = old_table.slot(index as int)->Some_0;
        let p1 = new_table.slot(index as int)->Some_0;
        &&& new_table.slot(index as int) is Some
        &&& p1.state == state
        &&& p1.blocked_on == wait
        &&& p1.pid == p0.pid && p1.cr3 == p0.cr3 && p1.kernel_stack_top == p0.kernel_stack_top
        &&& p1.kernel_rsp == p0.kernel_rsp && p1.saved == p0.saved
        &&& p1.interrupt_frame == p0.interrupt_frame
    }
    &&& !(index < MAX_PROCESSES && old_table.slot(index as int) is Some) ==> new_table.slots()
        == old_table.slots()
}

/// The process in slot `index` with its state replaced by `state` (what it
/// waits for unchanged); an empty or out-of-range slot is left alone.
pub open spec fn with_state(old_table: ProcessTable, new_table: ProcessTable, index: usize, state: State) -> bool {
    with_state_and_wait(
        old_table,
        new_table,
        index,
        state,
        old_table.slot(index as int)->Some_0.blocked_on,
    )
}

/// Sets the state of the process in slot `index` (a yielding process becomes
/// ready, a scheduled one running, a receiver with nothing to read blocked).
pub fn set_state(table: &mut ProcessTable, index: usize, state: State)
    requires
        old(table).wf(),
    ensures
        final(table).wf(),
        with_state(*old(table), *final(table), index, state),
{
    match table.get_mut(index) {
        Some(p) => {
            p.state = state;
        },
        None => {},
    }
    proof {
        assert(forall|j: int| 0 <= j < MAX_PROCESSES ==> table.slots()[j] == table.slot(j));
    }
}

/// Sets the state of the process in slot `index` and what it waits for; an
/// empty or out-of-range slot is left alone.
pub fn set_state_and_wait(table: &mut ProcessTable, index: usize, state: State, wait: Option<Wait>)
    requires
        old(table).wf(),
    ensures
        final(table).wf(),
        with_state_and_wait(*old(table), *final(table), index, state, wait),
{
    match table.get_mut(index) {
        Some(p) => {
            p.state = state;
            p.blocked_on = wait;
        },
        None => {},
    }
    proof {
        assert(forall|j: int| 0 <= j < MAX_PROCESSES ==> table.slots()[j] == table.slot(j));
    }
}

/// Adds a freshly spawned process (see `Process::spawned`) into the lowest
/// free slot and returns that slot; `None`, with nothing changed, when every
/// slot is taken.
pub fn add_spawned(table: &mut ProcessTable, pid: Pid, cr3: u64, kernel_stack_top: u64, kernel_rsp: u64) -> (r: Option<usize>)
    requires
        old(table).wf(),
    ensures
        final(table).wf(),
        final(table).current_spec() == old(table).current_spec(),
        r is None <==> forall|i: int| 0 <= i < MAX_PROCESSES ==> #[trigger] old(table).slot(i) is Some,
        r is None ==> final(table).slots() == old(table).slots(),
        r matches Some(idx) ==> {
            &&& idx < MAX_PROCESSES
            &&& old(table).slot(idx as int) is None
            &&& forall|j: int| 0 <= j < idx ==> #[trigger] old(table).slot(j) is Some
            &&& forall|j: int|
                0 <= j < MAX_PROCESSES && j != idx ==> #[trigger] final(table).slot(j) == old(table).slot(j)
            &&& final(table).slot(idx as int) matches Some(p) && {
                &&& p.pid == pid && p.state == State::Ready && p.blocked_on is None
                &&& p.cr3 == cr3 && p.kernel_stack_top == kernel_stack_top && p.kernel_rsp == kernel_rsp
                &&& p.interrupt_frame.rip == 0
            }
        },
{
    let mut i: usize = 0;
    while i < MAX_PROCESSES
        invariant
            i <= MAX_PROCESSES,
            table.wf(),
            *table == *old(table),
            forall|j: int| 0 <= j < i ==> #[trigger] table.slot(j) is Some,
        decreases MAX_PROCESSES - i,
    {
        if table.get(i).is_none() {
            let process = Process::spawned(pid, cr3, kernel_stack_top, kernel_rsp);
            let idx = table.insert(process);
            return Some(idx);
        }
        i = i + 1;
    }
    None
}

/// Records `frame` as the interrupt frame of the process in slot `index`,
/// which is being preempted; false, with nothing changed, for an empty or
/// out-of-range slot.
pub fn save_interrupt_frame(table: &mut ProcessTable, index: usize, frame: InterruptFrame) -> (saved: bool)
    requires
        old(table).wf(),
    ensures
        final(table).wf(),
        final(table).current_spec() == old(table).current_spec(),
        saved == (index < MAX_PROCESSES && old(table).slot(index as int) is Some),
        forall|j: int|
            0 <= j < MAX_PROCESSES && j != index ==> final(table).slot(j) == old(table).slot(j),
        saved ==> {
            let p0 = old(table).slot(index as int)->Some_0;
            let p1 = final(table).slot(index as int)->Some_0;
            &&& final(table).slot(index as int) is Some
            &&& p1.interrupt_frame == frame
            &&& p1.state == p0.state && p1.blocked_on == p0.blocked_on
            &&& p1.pid == p0.pid && p1.cr3 == p0.cr3 && p1.kernel_stack_top == p0.kernel_stack_top
            &&& p1.kernel_rsp == p0.kernel_rsp && p1.saved == p0.saved
        },
        !saved ==> final(table).slots() == old(table).slots(),
{
    let saved = match table.get_mut(index) {
        Some(p) => {
            p.interrupt_frame = frame;
            true
        },
        None => false,
    };
    proof {
        assert(forall|j: int| 0 <= j < MAX_PROCESSES ==> table.slots()[j] == table.slot(j));
    }
    saved
}

/// Slot `i` holds a process marked running.
pub open spec fn is_running(table: ProcessTable, i: int) -> bool {
    0 <= i < MAX_PROCESSES && table.slot(i) is Some && table.slot(i)->Some_0.state == State::Running
}

/// When the kernel gets control back from the process in slot `index`, a
/// process still marked running becomes ready again; any other state
/// (blocked, exited, ready) stays.
pub fn finish_run(table: &mut ProcessTable, index: usize)
    requires
        old(table).wf(),
    ensures
        final(table).wf(),
        is_running(*old(table), index as int) ==> with_state(
            *old(table),
            *final(table),
            index,
            State::Ready,
        ),
        !is_running(*old(table), index as int) ==> final(table).slots() == old(table).slots()
            && final(table).current_spec() == old(table).current_spec(),
{
    let running = match table.get(index) {
        Some(p) => p.state == State::Running,
        None => false,
    };
    if running {
        set_state(table, index, State::Ready);
    }
}

/// The page-table root against which a user pointer of the process in slot
/// `current` is checked: none for the kernel's slot 0 or an empty slot.
pub fn user_page_root(table: &ProcessTable, current: usize) -> (r: Option<u64>)
    requires
        table.wf(),
    ensures
        r == (if current != 0 && current < MAX_PROCESSES && table.slot(current as int) is Some {
            Some(table.slot(current as int)->Some_0.cr3)
        } else {
            None::<u64>
        }),
{
    if current == 0 {
        return None;
    }
    match table.get(current) {
        Some(p) => Some(p.cr3),
        None => None,
    }
}

/// Whether a process in `p` is blocked waiting for `wait`.
pub open spec fn waits_for(p: Process, wait: Wait) -> bool {
    p.state == State::Blocked && p.blocked_on == Some(wait)
}

/// `after` is `before`, except that a process blocked waiting for `wait` is
/// made ready and waits for nothing any more; same slot occupancy and the
/// same process in every other respect.
pub open spec fn woken_for(before: Option<Process>, after: Option<Process>, wait: Wait) -> bool {
    match before {
        None => after is None,
        Some(p0) => after matches Some(p1) && p1.state == (if waits_for(p0, wait) {
            State::Ready
        } else {
            p0.state
        }) && p1.blocked_on == (if waits_for(p0, wait) {
            None
        } else {
            p0.blocked_on
        }) && p1.pid == p0.pid && p1.cr3 == p0.cr3 && p1.kernel_rsp == p0.kernel_rsp
            && p1.kernel_stack_top == p0.kernel_stack_top && p1.saved == p0.saved
            && p1.interrupt_frame == p0.interrupt_frame,
    }
}

/// Marks the process in slot `index` blocked until `wait` is satisfied; an
/// empty or out-of-range slot is left alone.
pub fn block_on(table: &mut ProcessTable, index: usize, wait: Wait)
    requires
        old(table).wf(),
    ensures
        final(table).wf(),
        with_state_and_wait(*old(table), *final(table), index, State::Blocked, Some(wait)),
{
    set_state_and_wait(table, index, State::Blocked, Some(wait));
}

/// Makes ready every process blocked waiting for `wait`, so that each
/// retries what it was waiting on; every other process is left alone.
pub fn wake_waiting(table: &mut ProcessTable, wait: Wait)
    requires
        old(table).wf(),
    ensures
        final(table).wf(),
        final(table).current_spec() == old(table).current_spec(),
        forall|j: int|
            0 <= j < MAX_PROCESSES ==> #[trigger] woken_for(old(table).slot(j), final(table).slot(j), wait),
{
    let mut i: usize = 0;
    while i < MAX_PROCESSES
        invariant
            i <= MAX_PROCESSES,
            table.wf(),
            table.current_spec() == old(table).current_spec(),
            forall|j: int| i <= j < MAX_PROCESSES ==> #[trigger] table.slot(j) == old(table).slot(j),
            forall|j: int| 0 <= j < i ==> #[trigger] woken_for(old(table).slot(j), table.slot(j), wait),
        decreases MAX_PROCESSES - i,
    {
        let waiting = match table.get(i) {
            Some(p) => match p.blocked_on {
                Some(w) => p.state == State::Blocked && w == wait,
                None => false,
            },
            None => false,
        };
        if waiting {
            set_state_and_wait(table, i, State::Ready, None);
        }
        proof {
            assert(woken_for(old(table).slot(i as int), table.slot(i as int), wait));
        }
        i = i + 1;
    }
}

/// Empties every slot but the kernel's slot 0 whose process has exited, and
/// returns the processes taken out, with their slots, in slot order.
pub fn reap_exited(table: &mut ProcessTable) -> (reaped: Vec<(usize, Process)>)
    requires
        old(table).wf(),
    ensures
        final(table).wf(),
        final(table).current_spec() == old(table).current_spec(),
        forall|j: int|
            0 <= j < MAX_PROCESSES ==> #[trigger] final(table).slot(j) == (if reapable(*old(table), j) {
                None
            } else {
                old(table).slot(j)
            }),
        forall|k: int|
            0 <= k < reaped@.len() ==> {
                let (j, p) = #[trigger] reaped@[k];
                &&& reapable(*old(table), j as int)
                &&& old(table).slot(j as int) == Some(p)
            },
        forall|k1: int, k2: int| 0 <= k1 < k2 < reaped@.len() ==> reaped@[k1].0 < reaped@[k2].0,
        forall|j: int|
            #[trigger] reapable(*old(table), j) ==> exists|k: int|
                0 <= k < reaped@.len() && reaped@[k].0 == j,
{
    let mut reaped: Vec<(usize, Process)> = Vec::new();
    let mut i: usize = 1;
    while i < MAX_PROCESSES
        invariant
            1 <= i <= MAX_PROCESSES,
            table.wf(),
            table.current_spec() == old(table).current_spec(),
            forall|j: int| i <= j < MAX_PROCESSES ==> #[trigger] table.slot(j) == old(table).slot(j),
            forall|j: int|
                0 <= j < i ==> #[trigger] table.slot(j) == (if reapable(*old(table), j) {
                    None
                } else {
                    old(table).slot(j)
                }),
            forall|k: int|
                0 <= k < reaped@.len() ==> {
                    let (j, p) = #[trigger] reaped@[k];
                    &&& j < i
                    &&& reapable(*old(table), j as int)
                    &&& old(table).slot(j as int) == Some(p)
                },
            forall|k1: int, k2: int| 0 <= k1 < k2 < reaped@.len() ==> reaped@[k1].0 < reaped@[k2].0,
            forall|j: int|
                0 <= j < i && #[trigger] reapable(*old(table), j) ==> exists|k: int|
                    0 <= k < reaped@.len() && reaped@[k].0 == j,
        decreases MAX_PROCESSES - i,
    {
        let exited = match table.get(i) {
            Some(p) => p.state == State::Exited,
            None => false,
        };
        let ghost old_reaped = reaped@;
        let ghost before = *table;
        if exited {
            match table.remove(i) {
                Some(p) => {
                    reaped.push((i, p));
                },
                None => {},
            }
            assert forall|j: int|
                0 <= j < i + 1 && #[trigger] reapable(*old(table), j) implies exists|k: int|
                0 <= k < reaped@.len() && reaped@[k].0 == j by {
                if j == i {
                    assert(reaped@[reaped@.len() - 1].0 == j);
                } else {
                    let k = choose|k: int| 0 <= k < old_reaped.len() && old_reaped[k].0 == j;
                    assert(reaped@[k] == old_reaped[k]);
                }
            }
        }
        proof {
            assert(forall|j: int| 0 <= j < MAX_PROCESSES ==> table.slots()[j] == table.slot(j));
            assert(forall|j: int| 0 <= j < MAX_PROCESSES ==> before.slots()[j] == before.slot(j));
            assert forall|j: int| i + 1 <= j < MAX_PROCESSES implies #[trigger] table.slot(j) == old(
                table,
            ).slot(j) by {
                assert(table.slot(j) == before.slot(j));
                assert(before.slot(j) == old(table).slot(j));
            }
            assert forall|j: int| 0 <= j < i + 1 implies #[trigger] table.slot(j) == (if reapable(
                *old(table),
                j,
            ) {
                None
            } else {
                old(table).slot(j)
            }) by {
                if j < i {
                    assert(table.slot(j) == before.slot(j));
                }
            }
        }
        i = i + 1;
    }
    reaped
}

/// Slot `j` holds an exited process and is not the kernel's slot 0.
pub open spec fn reapable(table: ProcessTable, j: int) -> bool {
    &&& 1 <= j < MAX_PROCESSES
    &&& table.slot(j) is Some
    &&& table.slot(j)->Some_0.state == State::Exited
}

/// The top (highest address, exclusive) of stack `k` of a pool at `base`.
pub open spec fn stack_top(base: u64, k: int) -> int {
    base + (k + 1) * KERNEL_STACK_SIZE
}

/// Stack `k` is the lowest one not in use.
pub open spec fn first_free(in_use: Seq<bool>, k: int) -> bool {
    &&& 0 <= k < MAX_PROCESSES
    &&& !in_use[k]
    &&& forall|j: int| 0 <= j < k ==> #[trigger] in_use[j]
}

/// Hands out the kernel stacks of a static pool, one per process slot, and
/// takes them back when their process is torn down; `in_use[k]` records
/// whether stack `k` is handed out.
#[derive(Debug, Clone, Copy)]
pub struct KernelStackPool {
    pub base: u64,
    pub in_use: [bool; MAX_PROCESSES],
}

impl KernelStackPool {
    /// A pool of `MAX_PROCESSES` stacks starting at address `base`, none in use.
    pub fn new(base: u64) -> (p: KernelStackPool)
        ensures
            p.base == base,
            forall|k: int| 0 <= k < MAX_PROCESSES ==> !#[trigger] p.in_use@[k],
    {
        KernelStackPool { base, in_use: [false; MAX_PROCESSES] }
    }

    /// The top of the lowest stack not in use, which is then in use, or
    /// `None` when every stack of the pool is handed out.
    pub fn allocate(&mut self) -> (top: Option<u64>)
        requires
            old(self).base + MAX_PROCESSES * KERNEL_STACK_SIZE <= u64::MAX,
        ensures
            final(self).base == old(self).base,
            top is None <==> forall|k: int| 0 <= k < MAX_PROCESSES ==> #[trigger] old(self).in_use@[k],
            top is None ==> final(self).in_use@ == old(self).in_use@,
            top matches Some(t) ==> exists|k: int|
                #[trigger] first_free(old(self).in_use@, k) && t == stack_top(old(self).base, k)
                    && final(self).in_use@ == old(self).in_use@.update(k, true),
    {
        let mut k: usize = 0;
        while k < MAX_PROCESSES
            invariant
                k <= MAX_PROCESSES,
                *self == *old(self),
                self.base + MAX_PROCESSES * KERNEL_STACK_SIZE <= u64::MAX,
                forall|j: int| 0 <= j < k ==> #[trigger] self.in_use@[j],
            decreases MAX_PROCESSES - k,
        {
            if !self.in_use[k] {
                self.in_use[k] = true;
                let idx = k as u64;
                assert(idx * 65536 + 65536 <= 16 * 65536 && (idx + 1) * 65536 == idx * 65536
                    + 65536) by (nonlinear_arith)
                    requires
                        idx < 16,
                ;
                let offset = idx * 65536 + 65536;
                assert(first_free(old(self).in_use@, k as int));
                assert(self.in_use@ == old(self).in_use@.update(k as int, true));
                return Some(self.base + offset);
            }
            k = k + 1;
        }
        None
    }

    /// Takes back the stack whose top is `top`: true when it was in use (it
    /// is free from now on); false, with nothing changed, for any other address.
    pub fn release(&mut self, top: u64) -> (freed: bool)
        requires
            old(self).base + MAX_PROCESSES * KERNEL_STACK_SIZE <= u64::MAX,
        ensures
            final(self).base == old(self).base,
            freed <==> exists|k: int|
                0 <= k < MAX_PROCESSES && #[trigger] old(self).in_use@[k] && top == stack_top(
                    old(self).base,
                    k,
                ),
            freed ==> exists|k: int|
                0 <= k < MAX_PROCESSES && top == stack_top(old(self).base, k)
                    && #[trigger] final(self).in_use@ == old(self).in_use@.update(k, false),
            !freed ==> final(self).in_use@ == old(self).in_use@,
    {
        let mut k: usize = 0;
        while k < MAX_PROCESSES
            invariant
                k <= MAX_PROCESSES,
                *self == *old(self),
                self.base + MAX_PROCESSES * KERNEL_STACK_SIZE <= u64::MAX,
                forall|j: int|
                    0 <= j < k ==> !(#[trigger] self.in_use@[j] && top == stack_top(self.base, j)),
            decreases MAX_PROCESSES - k,
        {
            let idx = k as u64;
            assert(idx * 65536 + 65536 <= 16 * 65536 && (idx + 1) * 65536 == idx * 65536 + 65536)
                by (nonlinear_arith)
                requires
                    idx < 16,
            ;
            let this_top = self.base + (idx * 65536 + 65536);
            if self.in_use[k] && this_top == top {
                self.in_use[k] = false;
                return true;
            }
            k = k + 1;
        }
        false
    }
}

/// The words `setup_first_dispatch` writes below a fresh kernel stack top,
/// lowest address first, and the stack pointer that addresses the first of
/// them. `context_switch` pops the six zeros into the callee-saved
/// registers, `ret`s into the `iretq` trampoline, which pops the user
/// instruction pointer, code segment, flags, stack pointer and stack segment.
pub fn first_dispatch_frame(
    kernel_stack_top: u64,
    user_rip: u64,
    user_cs: u64,
    user_rflags: u64,
    user_rsp: u64,
    user_ss: u64,
    trampoline: u64,
) -> (r: (u64, [u64; 12]))
    requires
        kernel_stack_top >= 96,
    ensures
        r.0 == kernel_stack_top - 96,
        r.1@ == seq![0u64, 0, 0, 0, 0, 0, trampoline, user_rip, user_cs, user_rflags, user_rsp, user_ss],
{
    let words: [u64; 12] = [0, 0, 0, 0, 0, 0, trampoline, user_rip, user_cs, user_rflags, user_rsp, user_ss];
    assert(words@ =~= seq![0u64, 0, 0, 0, 0, 0, trampoline, user_rip, user_cs, user_rflags, user_rsp, user_ss]);
    (kernel_stack_top - 96, words)
}

/// A segment selector with requested privilege level 3 (user mode).
pub fn user_selector(selector: u16) -> (r: u64)
    ensures
        r == (selector as u64 | 3u64),
        r % 4 == 3,
        r / 4 == selector / 4,
{
    let r = selector as u64 | 3;
    assert((selector as u64 | 3u64) % 4 == 3 && (selector as u64 | 3u64) / 4 == (selector as u64) / 4) by (bit_vector);
    r
}

proof fn lemma_first_eligible(table: ProcessTable, after: int, i: int, need_frame: bool)
    requires
        1 <= i <= MAX_PROCESSES + 1,
        after >= 0,
    ensures
        first_eligible(table, after, i, need_frame) matches Some(idx) ==> exists|k: int|
            i <= k <= MAX_PROCESSES && idx == #[trigger] rr(after, k) && eligible(
                table,
                idx as int,
                need_frame,
            ) && forall|m: int|
                i <= m < k ==> !eligible(table, #[trigger] rr(after, m), need_frame),
        first_eligible(table, after, i, need_frame) is None ==> forall|m: int|
            i <= m <= MAX_PROCESSES ==> !eligible(table, #[trigger] rr(after, m), need_frame),
    decreases MAX_PROCESSES + 1 - i,
{
    if i <= MAX_PROCESSES {
        lemma_first_eligible(table, after, i + 1, need_frame);
        if !eligible(table, rr(after, i), need_frame) {
            if let Some(idx) = first_eligible(table, after, i + 1, need_frame) {
                let k = choose|k: int|
                    i + 1 <= k <= MAX_PROCESSES && idx == #[trigger] rr(after, k)
                        && eligible(table, idx as int, need_frame) && forall|m: int|
                        i + 1 <= m < k ==> !eligible(
                            table,
                            #[trigger] rr(after, m),
                            need_frame,
                        );
                assert(forall|m: int|
                    i <= m < k ==> !eligible(
                        table,
                        #[trigger] rr(after, m),
                        need_frame,
                    ));
            }
        }
    }
}

/// Round-robin scheduling: `schedule` finds a process exactly when some
/// slot holds a ready process; the slot it picks is ready, and no slot
/// strictly between `after_idx` and it (going round the table) is ready.
pub proof fn law_schedule_round_robin(table: ProcessTable, after_idx: int)
    requires
        after_idx >= 0,
    ensures
        spec_schedule(table, after_idx) is Some <==> exists|j: int|
            0 <= j < MAX_PROCESSES && #[trigger] eligible(table, j, false),
        spec_schedule(table, after_idx) matches Some(idx) ==> {
            &&& idx < MAX_PROCESSES
            &&& eligible(table, idx as int, false)
            &&& table.slot(idx as int)->Some_0.state == State::Ready
            &&& exists|k: int|
                1 <= k <= MAX_PROCESSES && idx == #[trigger] rr(after_idx, k)
                    && forall|m: int|
                    1 <= m < k ==> !eligible(table, #[trigger] rr(after_idx, m), false)
        },
{
    lemma_first_eligible(table, after_idx, 1, false);
    if spec_schedule(table, after_idx) is None {
        assert forall|j: int| 0 <= j < MAX_PROCESSES implies !#[trigger] eligible(table, j, false) by {
            let k = (j - after_idx % (MAX_PROCESSES as int) + MAX_PROCESSES) % (MAX_PROCESSES as int);
            let m = if k == 0 { MAX_PROCESSES as int } else { k };
            assert(rr(after_idx, m) == j);
            assert(!eligible(table, rr(after_idx, m), false));
        }
    }
}

/// Preemption never switches to the kernel's slot 0 from itself, never
/// "switches" to the running slot, and only ever picks a ready process that
/// has been preempted before.
pub proof fn law_preempt_target(table: ProcessTable, current: int)
    requires
        current >= 0,
    ensures
        current == 0 ==> spec_preempt_target(table, current) is None,
        spec_preempt_target(table, current) matches Some(idx) ==> {
            &&& idx != current
            &&& idx < MAX_PROCESSES
            &&& table.slot(idx as int)->Some_0.state == State::Ready
            &&& table.slot(idx as int)->Some_0.interrupt_frame.rip != 0
        },
{
    lemma_first_eligible(table, current, 1, true);
}

/// Identifiers drawn one after another from a counter starting at `n` are
/// `n, n + 1, ...`: they increase, so no two are equal, until the counter
/// wraps.
pub proof fn law_pids_increase(n: u64, i: nat, j: nat)
    requires
        i < j,
        n + j <= u64::MAX,
    ensures
        pid_counter_after_k(n, i) == n + i,
        pid_counter_after_k(n, j) == n + j,
        pid_counter_after_k(n, i) < pid_counter_after_k(n, j),
    decreases j,
{
    if i + 1 < j {
        law_pids_increase(n, i, (j - 1) as nat);
    } else {
        lemma_counter_after_k(n, i);
    }
}

proof fn lemma_counter_after_k(n: u64, k: nat)
    requires
        n + k < u64::MAX,
    ensures
        pid_counter_after_k(n, k) == n + k,
        pid_counter_after_k(n, k + 1) == n + k + 1,
    decreases k,
{
    if k > 0 {
        lemma_counter_after_k(n, (k - 1) as nat);
    }
    assert(pid_counter_after_k(n, k + 1) == pid_counter_after(pid_counter_after_k(n, k)));
}

} // verus!
