use umbra::interrupts::{timer_reschedule, InterruptIndex, QemuExitCode, UmbraAcpiHandler, acpi_ready};
use umbra::process::{
    exit, finish_run, first_dispatch_frame, has_valid_interrupt_frame, preempt_target, schedule,
    add_spawned, block_on, reap_exited, save_interrupt_frame, set_state, user_page_root, user_selector, wake_waiting, InterruptFrame,
    KernelStackPool, Pid, Process, ProcessTable, SavedRegs, State, Wait, KERNEL_STACK_SIZE, MAX_PROCESSES,
};

fn proc_with(pid: u64, state: State) -> Process {
    let mut p = Process::spawned(Pid(pid), 0x1000 * (pid + 1), 0x9000, 0x8F00);
    p.state = state;
    p
}

#[test]
fn pid_allocation_counts_up_and_wraps() {
    let mut next = 5u64;
    assert_eq!(Pid::allocate(&mut next), Pid(5));
    assert_eq!(Pid::allocate(&mut next), Pid(6));
    assert_eq!(next, 7);
    let mut last = u64::MAX;
    assert_eq!(Pid::allocate(&mut last), Pid(u64::MAX));
    assert_eq!(last, 0);
}

#[test]
fn spawned_process_is_ready_and_zeroed() {
    let p = Process::spawned(Pid(3), 0x2000, 0x10_0000, 0xF_FFA0);
    assert_eq!(p.state, State::Ready);
    assert_eq!(p.blocked_on, None);
    assert_eq!(p.cr3, 0x2000);
    assert_eq!(p.kernel_stack_top, 0x10_0000);
    assert_eq!(p.kernel_rsp, 0xF_FFA0);
    assert_eq!(p.interrupt_frame.rip, 0);
    assert_eq!(p.saved.rbx, 0);
    let d = InterruptFrame::default();
    assert_eq!((d.rip, d.cs, d.rflags, d.rsp, d.ss), (0, 0, 0, 0, 0));
    let s = SavedRegs::default();
    assert_eq!((s.r15, s.r14, s.r13, s.r12, s.rbp, s.rbx), (0, 0, 0, 0, 0, 0));
}

#[test]
fn table_insert_get_remove() {
    let mut t = ProcessTable::new();
    assert!(t.current().is_none());
    assert_eq!(t.insert(proc_with(0, State::Running)), 0);
    assert_eq!(t.insert(proc_with(1, State::Ready)), 1);
    assert_eq!(t.insert(proc_with(2, State::Ready)), 2);
    assert_eq!(t.get(1).unwrap().pid, Pid(1));
    assert!(t.get(MAX_PROCESSES).is_none());
    assert!(t.remove(1).is_some());
    assert!(t.get(1).is_none());
    assert_eq!(t.insert(proc_with(7, State::Ready)), 1);
    t.set_current(2);
    assert_eq!(t.current_index(), Some(2));
    assert_eq!(t.current().unwrap().pid, Pid(2));
    t.current_mut().unwrap().state = State::Blocked;
    assert_eq!(t.get(2).unwrap().state, State::Blocked);
    let listed: Vec<usize> = t.iter().iter().map(|(i, _)| *i).collect();
    assert_eq!(listed, vec![0, 1, 2]);
}

#[test]
fn schedule_is_round_robin() {
    let mut t = ProcessTable::new();
    t.insert(proc_with(0, State::Running));
    t.insert(proc_with(1, State::Ready));
    t.insert(proc_with(2, State::Blocked));
    t.insert(proc_with(3, State::Ready));
    assert_eq!(schedule(&t, 0), Some(1));
    assert_eq!(schedule(&t, 1), Some(3));
    assert_eq!(schedule(&t, 3), Some(1));
    // With only the searching slot ready, the search comes back to it.
    let mut u = ProcessTable::new();
    u.insert(proc_with(0, State::Ready));
    assert_eq!(schedule(&u, 0), Some(0));
    let empty = ProcessTable::new();
    assert_eq!(schedule(&empty, 0), None);
}

#[test]
fn preemption_needs_a_saved_frame() {
    let mut t = ProcessTable::new();
    t.insert(proc_with(0, State::Running));
    t.insert(proc_with(1, State::Running));
    t.insert(proc_with(2, State::Ready));
    t.insert(proc_with(3, State::Ready));
    assert_eq!(preempt_target(&t, 1), None);
    t.get_mut(3).unwrap().interrupt_frame.rip = 0x40_1000;
    assert!(has_valid_interrupt_frame(&t, 3));
    assert!(!has_valid_interrupt_frame(&t, 2));
    assert!(!has_valid_interrupt_frame(&t, 9));
    assert_eq!(preempt_target(&t, 1), Some(3));
    assert_eq!(preempt_target(&t, 0), None);
    t.get_mut(1).unwrap().state = State::Ready;
    t.get_mut(1).unwrap().interrupt_frame.rip = 0x40_2000;
    set_state(&mut t, 3, State::Blocked);
    // Coming back to the running slot itself is no switch.
    assert_eq!(preempt_target(&t, 1), None);
}

#[test]
fn exit_and_state_changes() {
    let mut t = ProcessTable::new();
    t.insert(proc_with(0, State::Running));
    t.insert(proc_with(1, State::Running));
    exit(&mut t, 1);
    assert_eq!(t.get(1).unwrap().state, State::Exited);
    exit(&mut t, 5);
    assert!(t.get(5).is_none());
    finish_run(&mut t, 1);
    assert_eq!(t.get(1).unwrap().state, State::Exited);
    finish_run(&mut t, 0);
    assert_eq!(t.get(0).unwrap().state, State::Ready);
    set_state(&mut t, 0, State::Running);
    assert_eq!(t.get(0).unwrap().state, State::Running);
}

#[test]
fn user_page_root_of_current() {
    let mut t = ProcessTable::new();
    t.insert(proc_with(0, State::Running));
    t.insert(proc_with(1, State::Running));
    assert_eq!(user_page_root(&t, 0), None);
    assert_eq!(user_page_root(&t, 1), Some(0x2000));
    assert_eq!(user_page_root(&t, 4), None);
}

#[test]
fn first_dispatch_stack_layout() {
    let (rsp, words) = first_dispatch_frame(0x10_0000, 0x40_0000, 0x23, 0x200, 0x5555_0000_1000, 0x1B, 0xDEAD);
    assert_eq!(rsp, 0x10_0000 - 96);
    assert_eq!(words, [0, 0, 0, 0, 0, 0, 0xDEAD, 0x40_0000, 0x23, 0x200, 0x5555_0000_1000, 0x1B]);
    assert_eq!(user_selector(0x20), 0x23);
    assert_eq!(user_selector(0x1B), 0x1B);
}

#[test]
fn timer_reschedules_on_quantum() {
    let mut t = ProcessTable::new();
    t.insert(proc_with(0, State::Ready));
    t.insert(proc_with(1, State::Running));
    t.insert(proc_with(2, State::Ready));
    assert_eq!(timer_reschedule(&t, 100, 1), Some(2));
    assert_eq!(timer_reschedule(&t, 101, 1), None);
    assert_eq!(timer_reschedule(&t, 0, 1), None);
    assert_eq!(timer_reschedule(&t, 200, 0), None);
    let mut u = ProcessTable::new();
    u.insert(proc_with(0, State::Blocked));
    u.insert(proc_with(1, State::Ready));
    assert_eq!(timer_reschedule(&u, 300, 1), None);
}

#[test]
fn interrupt_vectors_and_exit_codes() {
    assert_eq!(InterruptIndex::Timer.as_u8(), 32);
    assert_eq!(InterruptIndex::Keyboard.as_u8(), 33);
    assert_eq!(InterruptIndex::Keyboard.as_usize(), 33);
    assert_eq!(QemuExitCode::Success.code(), 0x10);
    assert_eq!(QemuExitCode::Failed.code(), 0x11);
    let h = UmbraAcpiHandler::new(0xFFFF_8000_0000_0000);
    assert_eq!(h.virtual_address(0x1000), 0xFFFF_8000_0000_1000);
    assert!(acpi_ready(1));
    assert!(!acpi_ready(0));
}

#[test]
fn only_the_waiters_of_an_event_are_woken() {
    let mut t = ProcessTable::new();
    t.insert(proc_with(0, State::Running));
    t.insert(proc_with(1, State::Running));
    t.insert(proc_with(2, State::Exited));
    t.insert(proc_with(3, State::Running));
    t.insert(proc_with(4, State::Running));
    block_on(&mut t, 1, Wait::Message(12));
    block_on(&mut t, 3, Wait::Message(13));
    block_on(&mut t, 4, Wait::Reply(12));
    assert_eq!(t.get(1).unwrap().state, State::Blocked);
    assert_eq!(t.get(1).unwrap().blocked_on, Some(Wait::Message(12)));
    wake_waiting(&mut t, Wait::Message(12));
    assert_eq!(t.get(0).unwrap().state, State::Running);
    assert_eq!(t.get(1).unwrap().state, State::Ready);
    assert_eq!(t.get(1).unwrap().blocked_on, None);
    assert_eq!(t.get(2).unwrap().state, State::Exited);
    assert_eq!(t.get(3).unwrap().state, State::Blocked);
    assert_eq!(t.get(3).unwrap().blocked_on, Some(Wait::Message(13)));
    assert_eq!(t.get(4).unwrap().state, State::Blocked);
    wake_waiting(&mut t, Wait::Reply(12));
    assert_eq!(t.get(4).unwrap().state, State::Ready);
    assert_eq!(t.get(3).unwrap().state, State::Blocked);
    assert!(t.get(5).is_none());
}

#[test]
fn exited_processes_are_reaped_except_the_kernel() {
    let mut t = ProcessTable::new();
    t.insert(proc_with(0, State::Exited));
    t.insert(proc_with(1, State::Exited));
    t.insert(proc_with(2, State::Ready));
    t.insert(proc_with(3, State::Exited));
    let reaped = reap_exited(&mut t);
    let slots: Vec<usize> = reaped.iter().map(|(i, _)| *i).collect();
    assert_eq!(slots, vec![1, 3]);
    assert_eq!(reaped[0].1.pid, Pid(1));
    assert_eq!(reaped[1].1.pid, Pid(3));
    assert!(t.get(0).is_some());
    assert!(t.get(1).is_none());
    assert_eq!(t.get(2).unwrap().pid, Pid(2));
    assert!(t.get(3).is_none());
    assert!(reap_exited(&mut t).is_empty());
    assert_eq!(t.insert(proc_with(9, State::Ready)), 1);
}

#[test]
fn kernel_stacks_come_from_the_pool_in_order() {
    let mut pool = KernelStackPool::new(0x10_0000);
    assert_eq!(pool.allocate(), Some(0x10_0000 + KERNEL_STACK_SIZE as u64));
    assert_eq!(pool.allocate(), Some(0x10_0000 + 2 * KERNEL_STACK_SIZE as u64));
    for _ in 2..MAX_PROCESSES {
        assert!(pool.allocate().is_some());
    }
    assert_eq!(pool.allocate(), None);
    assert!(pool.in_use.iter().all(|u| *u));
}

#[test]
fn released_kernel_stacks_are_handed_out_again() {
    let mut pool = KernelStackPool::new(0x10_0000);
    let first = pool.allocate().unwrap();
    let second = pool.allocate().unwrap();
    let third = pool.allocate().unwrap();
    assert!(pool.release(second));
    assert!(!pool.release(second));
    assert!(!pool.release(second + 8));
    assert!(!pool.release(0x10_0000));
    assert_eq!(pool.allocate(), Some(second));
    assert_eq!(pool.allocate(), Some(third + KERNEL_STACK_SIZE as u64));
    assert!(pool.release(first));
    assert_eq!(pool.allocate(), Some(first));
    for _ in 4..MAX_PROCESSES {
        assert!(pool.allocate().is_some());
    }
    assert_eq!(pool.allocate(), None);
    assert!(pool.release(third));
    assert_eq!(pool.allocate(), Some(third));
}

#[test]
fn pids_increase_one_by_one() {
    let mut next = 40u64;
    let pids: Vec<Pid> = (0..5).map(|_| Pid::allocate(&mut next)).collect();
    assert_eq!(pids, vec![Pid(40), Pid(41), Pid(42), Pid(43), Pid(44)]);
    assert!(pids.windows(2).all(|w| w[0] < w[1]));
}

#[test]
fn spawned_processes_take_the_lowest_free_slot() {
    let mut t = ProcessTable::new();
    assert_eq!(add_spawned(&mut t, Pid(7), 0x3000, 0x9000, 0x8F00), Some(0));
    assert_eq!(add_spawned(&mut t, Pid(8), 0x4000, 0xA000, 0x9F00), Some(1));
    let p = t.get(1).unwrap();
    assert_eq!((p.pid, p.state, p.cr3, p.kernel_stack_top, p.kernel_rsp), (Pid(8), State::Ready, 0x4000, 0xA000, 0x9F00));
    assert_eq!(p.blocked_on, None);
    t.remove(0);
    assert_eq!(add_spawned(&mut t, Pid(9), 0x5000, 0xB000, 0xAF00), Some(0));
    for k in 2..MAX_PROCESSES {
        assert_eq!(add_spawned(&mut t, Pid(10 + k as u64), 0, 0, 0), Some(k));
    }
    assert_eq!(add_spawned(&mut t, Pid(99), 0, 0, 0), None);
    assert_eq!(t.get(0).unwrap().pid, Pid(9));
}

#[test]
fn a_preempted_process_keeps_its_interrupt_frame() {
    let mut t = ProcessTable::new();
    t.insert(proc_with(0, State::Running));
    t.insert(proc_with(1, State::Running));
    let frame = InterruptFrame { rip: 0x40_1000, cs: 0x23, rflags: 0x202, rsp: 0x5555_0000_0F00, ss: 0x1B };
    assert!(save_interrupt_frame(&mut t, 1, frame));
    let p = t.get(1).unwrap();
    assert_eq!(p.interrupt_frame.rip, 0x40_1000);
    assert_eq!(p.interrupt_frame.rsp, 0x5555_0000_0F00);
    assert_eq!(p.state, State::Running);
    assert_eq!(t.get(0).unwrap().interrupt_frame.rip, 0);
    assert!(!save_interrupt_frame(&mut t, 2, frame));
    assert!(!save_interrupt_frame(&mut t, 99, frame));
}
