use std::collections::HashMap;

use umbra::frames::{BootInfoFrameAllocator, EmptyFrameAllocator, MemRegion};
use umbra::ipc::{EndpointId, IpcState, Message, MAX_PENDING_MESSAGES};
use umbra::keyboard::{
    handle_scancode, is_key_request, reply_for_key, serve_scancode, shell_step, KbStep, KeyDecoder, NO_SCANCODE,
};
use umbra::paging::{range_pages, PageWalk, RangePages, WalkFault, WalkStep, PTE_HUGE, PTE_PRESENT, PTE_USER};
use umbra::protocol::{KeyInput, KB_GET_CHAR, KB_GET_CHAR_POLL, KEY_NONE};
use umbra::shell::{EditAction, LineEditor};
use umbra::caps::{decode_cap, Cap, CapTable};
use umbra::process::{Pid, Process, ProcessTable, State, Wait};
use umbra::syscall::{
    await_reply, created_endpoint, decode_syscall, exit_current, port_permitted, recv_or_block,
    reschedule_before_syscall, send_and_wake, send_outcome, should_switch_before_syscall,
    spawn_name_len_ok, sys_claim_endpoint, sys_create_endpoint, sys_grant_cap, sys_ipc_call_send,
    sys_ipc_recv, sys_ipc_reply, sys_ipc_send, yield_current, RecvOutcome, SendOutcome, Syscall,
    SYSCALL_ERROR, SYSCALL_QUEUE_FULL,
};

fn walk(mem: &HashMap<u64, u64>, root: u64, vaddr: u64, user: bool) -> Result<u64, WalkFault> {
    let mut w = PageWalk::new(root, vaddr, user);
    loop {
        let e = *mem.get(&w.entry_addr()).unwrap_or(&0);
        match w.step(e) {
            WalkStep::Continue => {}
            WalkStep::Done(p) => return Ok(p),
            WalkStep::Fault(f) => return Err(f),
        }
    }
}

fn index(v: u64, shift: u64) -> u64 {
    (v >> shift) & 0x1FF
}

#[test]
fn page_walk_translates_user_address() {
    let vaddr = 0x0000_5555_0000_0123u64;
    let flags = PTE_PRESENT | PTE_USER | 0x2;
    let mut mem = HashMap::new();
    mem.insert(0x1000 + 8 * index(vaddr, 39), 0x2000 | flags);
    mem.insert(0x2000 + 8 * index(vaddr, 30), 0x3000 | flags);
    mem.insert(0x3000 + 8 * index(vaddr, 21), 0x4000 | flags);
    mem.insert(0x4000 + 8 * index(vaddr, 12), 0x0012_3000 | flags);
    assert_eq!(walk(&mem, 0x1000, vaddr, true), Ok(0x0012_3123));
    assert_eq!(walk(&mem, 0x1FFF, vaddr, false), Ok(0x0012_3123));
    assert_eq!(walk(&mem, 0x1000, vaddr + 0x1000, true), Err(WalkFault::NotPresent));

    mem.insert(0x4000 + 8 * index(vaddr, 12), 0x0012_3000 | PTE_PRESENT);
    assert_eq!(walk(&mem, 0x1000, vaddr, true), Err(WalkFault::NotUser));
    assert_eq!(walk(&mem, 0x1000, vaddr, false), Ok(0x0012_3123));

    mem.insert(0x3000 + 8 * index(vaddr, 21), 0x4000 | flags | PTE_HUGE);
    assert_eq!(walk(&mem, 0x1000, vaddr, false), Err(WalkFault::HugePage));
}

#[test]
fn frame_allocator_hands_out_map_frames_then_recycled() {
    let regions = vec![
        MemRegion { start: 0x1000, end: 0x3000, usable: true },
        MemRegion { start: 0x3000, end: 0x8000, usable: false },
        MemRegion { start: 0x10_0800, end: 0x10_2001, usable: true },
    ];
    let mut a = BootInfoFrameAllocator::new(regions);
    assert_eq!(a.allocate_frame(), Some(0x1000));
    assert_eq!(a.allocate_frame(), Some(0x2000));
    assert_eq!(a.allocate_frame(), Some(0x10_0000));
    a.deallocate_frame(0x2000);
    a.deallocate_frame(0x1000);
    assert_eq!(a.allocate_frame(), Some(0x1000));
    assert_eq!(a.allocate_frame(), Some(0x2000));
    assert_eq!(a.allocate_frame(), Some(0x10_1000));
    assert_eq!(a.allocate_frame(), None);
    assert_eq!(a.allocate_frame(), None);
    let mut e = EmptyFrameAllocator;
    assert_eq!(e.allocate_frame(), None);
}

#[test]
fn syscalls_decode() {
    assert_eq!(decode_syscall(7, 0, 0, 0), Syscall::Yield);
    assert_eq!(decode_syscall(8, 0, 0, 0), Syscall::Exit);
    assert_eq!(decode_syscall(12, 0x1_0070, 0x1FF, 0), Syscall::PortWriteU8 { port: 0x70, value: 0xFF });
    assert_eq!(
        decode_syscall(102, 3, 0x1000, 0x2000),
        Syscall::IpcCall { endpoint: EndpointId(3), send_addr: 0x1000, recv_addr: 0x2000 }
    );
    assert_eq!(decode_syscall(105, 0x4000, 9, 0), Syscall::Spawn { name_addr: 0x4000, name_len: 9 });
    assert_eq!(decode_syscall(0, 1, 2, 3), Syscall::Unknown);
    assert_eq!(decode_syscall(17, 1, 2, 3), Syscall::Unknown);
    assert_eq!(decode_syscall(19, 4, 0, 0x70), Syscall::GrantCap { target: 4, kind: 0, arg: 0x70 });
    assert_eq!(decode_syscall(106, 16, 0x3000, 0), Syscall::IpcReply { endpoint: EndpointId(16), msg_addr: 0x3000 });
    assert_eq!(decode_syscall(107, 1, 2, 3), Syscall::Unknown);
    assert!(spawn_name_len_ok(64));
    assert!(!spawn_name_len_ok(65));
    assert!(should_switch_before_syscall(1, 2));
    assert!(!should_switch_before_syscall(0, 2));
    assert!(!should_switch_before_syscall(1, usize::MAX));
    assert!(!should_switch_before_syscall(2, 2));
}

#[test]
fn ipc_syscalls() {
    let mut ipc = IpcState::new();
    assert_eq!(sys_create_endpoint(&mut ipc, 0), SYSCALL_ERROR);
    assert_eq!(sys_create_endpoint(&mut ipc, 3), 0);
    assert_eq!(sys_claim_endpoint(&mut ipc, EndpointId(12), 0), SYSCALL_ERROR);
    assert_eq!(sys_claim_endpoint(&mut ipc, EndpointId(12), 3), 0);
    assert_eq!(sys_claim_endpoint(&mut ipc, EndpointId(12), 4), SYSCALL_ERROR);
    let m = Message::new(1, &[5]);
    assert_eq!(sys_ipc_send(&mut ipc, EndpointId(20), m), SYSCALL_ERROR);
    assert_eq!(sys_ipc_send(&mut ipc, EndpointId(12), m), 0);
    assert!(matches!(sys_ipc_recv(&mut ipc, EndpointId(12)), RecvOutcome::Received(r) if r == m));
    assert!(matches!(sys_ipc_recv(&mut ipc, EndpointId(12)), RecvOutcome::Block));
    assert!(matches!(sys_ipc_recv(&mut ipc, EndpointId(20)), RecvOutcome::Fail));
    for _ in 0..MAX_PENDING_MESSAGES {
        assert_eq!(sys_ipc_send(&mut ipc, EndpointId(12), m), 0);
    }
    assert_eq!(sys_ipc_send(&mut ipc, EndpointId(12), m), SYSCALL_QUEUE_FULL);
    let mut t = ProcessTable::new();
    assert_eq!(sys_ipc_call_send(&mut ipc, &mut t, EndpointId(12), m), Err(SYSCALL_ERROR));
    assert!(matches!(sys_ipc_recv(&mut ipc, EndpointId(12)), RecvOutcome::Received(r) if r == m));
    assert_eq!(sys_ipc_call_send(&mut ipc, &mut t, EndpointId(12), m), Ok(None));
    assert_eq!(sys_ipc_call_send(&mut ipc, &mut t, EndpointId(30), m), Err(SYSCALL_ERROR));
}

#[test]
fn user_side_result_codes() {
    assert_eq!(send_outcome(0), SendOutcome::Sent);
    assert_eq!(send_outcome(SYSCALL_ERROR), SendOutcome::Failed);
    assert_eq!(send_outcome(SYSCALL_QUEUE_FULL), SendOutcome::Retry);
    assert_eq!(created_endpoint(7), Some(7));
    assert_eq!(created_endpoint(SYSCALL_ERROR), None);
}

#[test]
fn keyboard_server_steps() {
    assert!(is_key_request(KB_GET_CHAR));
    assert!(is_key_request(KB_GET_CHAR_POLL));
    assert!(!is_key_request(1));
    assert_eq!(reply_for_key(Some(KeyInput::Unicode('q'))), KbStep::Reply('q' as u32));
    assert_eq!(reply_for_key(Some(KeyInput::Backspace)), KbStep::Reply(8));
    assert_eq!(reply_for_key(Some(KeyInput::OtherRaw)), KbStep::Retry);
    assert_eq!(reply_for_key(None), KbStep::Retry);
    assert_eq!(handle_scancode(KB_GET_CHAR_POLL, NO_SCANCODE, None), KbStep::Reply(KEY_NONE));
    assert_eq!(handle_scancode(KB_GET_CHAR, NO_SCANCODE, None), KbStep::Retry);
    assert_eq!(handle_scancode(KB_GET_CHAR, 0x1E, Some(KeyInput::Unicode('a'))), KbStep::Reply(97));
    assert_eq!(handle_scancode(KB_GET_CHAR_POLL, 0x9E, None), KbStep::Retry);
}

#[test]
fn user_ranges_split_into_pages() {
    assert_eq!(range_pages(0x1000, 0), RangePages::Empty);
    assert_eq!(range_pages(0x1FFF, 2), RangePages::Pages(0x1000, 0x2000));
    assert_eq!(range_pages(0x1000, 68), RangePages::Pages(0x1000, 0x1000));
    assert_eq!(range_pages(u64::MAX, 2), RangePages::Wraps);
    assert_eq!(range_pages(u64::MAX, 1), RangePages::Pages(u64::MAX - 0xFFF, u64::MAX - 0xFFF));
}

#[test]
fn non_canonical_user_ranges_are_refused() {
    assert_eq!(range_pages(0x8000_0000_0000, 68), RangePages::NonCanonical);
    assert_eq!(range_pages(0x8000_0000_0000, 0), RangePages::NonCanonical);
    assert_eq!(range_pages(0x7FFF_FFFF_FFC0, 0x40), RangePages::Pages(0x7FFF_FFFF_F000, 0x7FFF_FFFF_F000));
    assert_eq!(range_pages(0x7FFF_FFFF_FFC0, 0x41), RangePages::NonCanonical);
    assert_eq!(range_pages(0xFFFF_7FFF_FFFF_FFFF, 2), RangePages::NonCanonical);
    assert_eq!(range_pages(0xFFFF_8000_0000_0000, 8), RangePages::Pages(0xFFFF_8000_0000_0000, 0xFFFF_8000_0000_0000));
    assert_eq!(range_pages(0x1000, 0xFFFF_8000_0000_0000), RangePages::NonCanonical);
}

#[test]
fn frame_counter_is_visible() {
    let mut a = BootInfoFrameAllocator::new(vec![MemRegion { start: 0, end: 0x2000, usable: true }]);
    assert_eq!(a.handed_out(), 0);
    assert_eq!(a.allocate_frame(), Some(0));
    assert_eq!(a.handed_out(), 1);
    a.deallocate_frame(0);
    assert_eq!(a.allocate_frame(), Some(0));
    assert_eq!(a.handed_out(), 1);
}

#[test]
fn pci_presence_check() {
    assert!(!umbra::pci::device_present(0xFFFF_FFFF));
    assert!(!umbra::pci::device_present(0x1234_FFFF));
    assert!(umbra::pci::device_present(0xFFFF_8086));
}

fn table_of(states: &[State]) -> ProcessTable {
    let mut t = ProcessTable::new();
    for (i, &st) in states.iter().enumerate() {
        let mut p = Process::spawned(Pid(i as u64), 0x1000, 0x9000, 0x8F00);
        p.state = st;
        t.insert(p);
    }
    t
}

#[test]
fn receive_blocks_then_send_wakes() {
    let mut ipc = IpcState::new();
    let mut t = table_of(&[State::Running, State::Running, State::Ready]);
    assert_eq!(sys_claim_endpoint(&mut ipc, EndpointId(13), 1), 0);
    assert!(matches!(recv_or_block(&mut ipc, &mut t, 1, EndpointId(13)), RecvOutcome::Block));
    assert_eq!(t.get(1).unwrap().state, State::Blocked);
    let m = Message::new(2, &[9]);
    assert_eq!(send_and_wake(&mut ipc, &mut t, EndpointId(13), m), 0);
    assert_eq!(t.get(1).unwrap().state, State::Ready);
    assert!(matches!(recv_or_block(&mut ipc, &mut t, 1, EndpointId(13)), RecvOutcome::Received(r) if r == m));
    assert_eq!(send_and_wake(&mut ipc, &mut t, EndpointId(14), m), SYSCALL_ERROR);
    // The kernel's own slot is never marked blocked: with nothing waiting it fails.
    assert!(matches!(recv_or_block(&mut ipc, &mut t, 0, EndpointId(13)), RecvOutcome::Fail));
    assert_eq!(t.get(0).unwrap().state, State::Running);
    // A receive on a missing endpoint fails at once.
    assert!(matches!(recv_or_block(&mut ipc, &mut t, 1, EndpointId(20)), RecvOutcome::Fail));
    assert_eq!(t.get(1).unwrap().state, State::Ready);
}

#[test]
fn a_send_elsewhere_leaves_a_receiver_blocked() {
    let mut ipc = IpcState::new();
    let mut t = table_of(&[State::Running, State::Running, State::Running]);
    assert_eq!(sys_claim_endpoint(&mut ipc, EndpointId(13), 1), 0);
    assert_eq!(sys_claim_endpoint(&mut ipc, EndpointId(14), 2), 0);
    assert!(matches!(recv_or_block(&mut ipc, &mut t, 1, EndpointId(13)), RecvOutcome::Block));
    assert!(matches!(recv_or_block(&mut ipc, &mut t, 2, EndpointId(14)), RecvOutcome::Block));
    let m = Message::new(5, &[1, 2]);
    assert_eq!(send_and_wake(&mut ipc, &mut t, EndpointId(14), m), 0);
    assert_eq!(t.get(1).unwrap().state, State::Blocked);
    assert_eq!(t.get(1).unwrap().blocked_on, Some(Wait::Message(13)));
    assert_eq!(t.get(2).unwrap().state, State::Ready);
    // Still nothing for the first receiver: it blocks again rather than failing.
    assert!(matches!(recv_or_block(&mut ipc, &mut t, 1, EndpointId(13)), RecvOutcome::Block));
    assert!(matches!(recv_or_block(&mut ipc, &mut t, 2, EndpointId(14)), RecvOutcome::Received(r) if r == m));
}

#[test]
fn a_call_gets_the_owners_reply_not_its_request() {
    let mut ipc = IpcState::new();
    let mut t = table_of(&[State::Running, State::Running, State::Running]);
    assert_eq!(sys_claim_endpoint(&mut ipc, EndpointId(16), 2), 0);
    // The server waits for requests.
    assert!(matches!(recv_or_block(&mut ipc, &mut t, 2, EndpointId(16)), RecvOutcome::Block));
    let req = Message::new(1, &[7]);
    assert_eq!(sys_ipc_call_send(&mut ipc, &mut t, EndpointId(16), req), Ok(None));
    assert_eq!(t.get(2).unwrap().state, State::Ready);
    // The caller finds no reply yet and blocks waiting for one.
    assert!(matches!(await_reply(&mut ipc, &mut t, 1, EndpointId(16)), RecvOutcome::Block));
    assert_eq!(t.get(1).unwrap().blocked_on, Some(Wait::Reply(16)));
    // The server gets the request; only the owner may reply.
    assert!(matches!(recv_or_block(&mut ipc, &mut t, 2, EndpointId(16)), RecvOutcome::Received(r) if r == req));
    let reply = Message::new(1, &[42]);
    assert_eq!(sys_ipc_reply(&mut ipc, &mut t, 1, EndpointId(16), reply), SYSCALL_ERROR);
    assert_eq!(t.get(1).unwrap().state, State::Blocked);
    assert_eq!(sys_ipc_reply(&mut ipc, &mut t, 2, EndpointId(16), reply), 0);
    assert_eq!(t.get(1).unwrap().state, State::Ready);
    assert!(matches!(await_reply(&mut ipc, &mut t, 1, EndpointId(16)), RecvOutcome::Received(r) if r == reply));
    // The kernel cannot wait; a missing endpoint fails.
    assert!(matches!(await_reply(&mut ipc, &mut t, 0, EndpointId(16)), RecvOutcome::Fail));
    assert!(matches!(await_reply(&mut ipc, &mut t, 1, EndpointId(17)), RecvOutcome::Fail));
    assert_eq!(sys_ipc_reply(&mut ipc, &mut t, 2, EndpointId(17), reply), SYSCALL_ERROR);
    for _ in 0..MAX_PENDING_MESSAGES {
        assert_eq!(sys_ipc_reply(&mut ipc, &mut t, 2, EndpointId(16), reply), 0);
    }
    assert_eq!(sys_ipc_reply(&mut ipc, &mut t, 2, EndpointId(16), reply), SYSCALL_QUEUE_FULL);
}

#[test]
fn port_io_needs_a_granted_port_capability() {
    let mut ipc = IpcState::new();
    let mut caps = CapTable::new();
    assert!(!port_permitted(&caps, 4, 0x70));
    // Nobody owns the service manager's endpoint yet: no grant is allowed.
    assert_eq!(sys_grant_cap(&mut caps, &ipc, 1, 4, 0, 0x70), SYSCALL_ERROR);
    assert_eq!(sys_claim_endpoint(&mut ipc, EndpointId(1), 1), 0);
    assert_eq!(sys_grant_cap(&mut caps, &ipc, 2, 4, 0, 0x70), SYSCALL_ERROR);
    assert_eq!(sys_grant_cap(&mut caps, &ipc, 1, 4, 0, 0x70), 0);
    assert_eq!(sys_grant_cap(&mut caps, &ipc, 1, 4, 0, 0x70), 0);
    assert!(port_permitted(&caps, 4, 0x70));
    assert!(!port_permitted(&caps, 4, 0x71));
    assert!(!port_permitted(&caps, 5, 0x70));
    assert_eq!(sys_grant_cap(&mut caps, &ipc, 1, 4, 9, 0x70), SYSCALL_ERROR);
    assert_eq!(sys_grant_cap(&mut caps, &ipc, 1, 16, 0, 0x70), SYSCALL_ERROR);
    assert_eq!(sys_grant_cap(&mut caps, &ipc, 1, 5, 2, 12), 0);
    assert!(caps.has(5, Cap::Endpoint(12)));
    assert!(!port_permitted(&caps, 5, 12));
    caps.revoke_all(4);
    assert!(!port_permitted(&caps, 4, 0x70));
    assert!(caps.has(5, Cap::Endpoint(12)));
    assert_eq!(decode_cap(0, 0x1_0060), Some(Cap::Port(0x60)));
    assert_eq!(decode_cap(1, 1), Some(Cap::Irq(1)));
    assert_eq!(decode_cap(3, 0), Some(Cap::Framebuffer));
    assert_eq!(decode_cap(4, 0), None);
}

#[test]
fn each_slot_has_a_table_of_bounded_size() {
    let mut caps = CapTable::new();
    for port in 0..16u16 {
        assert!(caps.grant(3, Cap::Port(port)));
    }
    assert!(!caps.grant(3, Cap::Port(999)));
    assert!(!caps.has(3, Cap::Port(999)));
    assert!(caps.grant(3, Cap::Port(0)));
    assert!(caps.grant(4, Cap::Port(999)));
    assert!(!caps.grant(16, Cap::Port(1)));
    caps.revoke_all(3);
    assert!(!caps.has(3, Cap::Port(5)));
    assert!(caps.grant(3, Cap::Port(999)));
    assert!(caps.has(4, Cap::Port(999)));
}

#[test]
fn yield_exit_and_pending_switches() {
    let mut t = table_of(&[State::Running, State::Running, State::Ready]);
    assert!(!yield_current(&mut t, 0));
    assert_eq!(t.get(0).unwrap().state, State::Running);
    assert!(yield_current(&mut t, 1));
    assert_eq!(t.get(1).unwrap().state, State::Ready);
    assert!(!reschedule_before_syscall(&mut t, 1, usize::MAX));
    assert!(!reschedule_before_syscall(&mut t, 2, 2));
    t.get_mut(1).unwrap().state = State::Running;
    assert!(reschedule_before_syscall(&mut t, 1, 2));
    assert_eq!(t.get(1).unwrap().state, State::Ready);
    assert!(exit_current(&mut t, 2));
    assert_eq!(t.get(2).unwrap().state, State::Exited);
    assert!(!exit_current(&mut t, 0));
}

#[test]
fn the_keyboard_server_decodes_scancodes() {
    let mut dec = KeyDecoder::new();
    assert_eq!(serve_scancode(&mut dec, KB_GET_CHAR, 0x1E), (Some(KeyInput::Unicode('a')), KbStep::Reply(97)));
    // The release of the key completes no key.
    assert_eq!(serve_scancode(&mut dec, KB_GET_CHAR, 0x9E), (None, KbStep::Retry));
    // Shift held down changes the next letter.
    assert_eq!(serve_scancode(&mut dec, KB_GET_CHAR, 0x2A), (Some(KeyInput::OtherRaw), KbStep::Retry));
    assert_eq!(serve_scancode(&mut dec, KB_GET_CHAR, 0x1E), (Some(KeyInput::Unicode('A')), KbStep::Reply(65)));
    assert_eq!(serve_scancode(&mut dec, KB_GET_CHAR, 0xAA), (None, KbStep::Retry));
    assert_eq!(serve_scancode(&mut dec, KB_GET_CHAR, 0x0E), (Some(KeyInput::Unicode('\u{8}')), KbStep::Reply(8)));
    assert_eq!(serve_scancode(&mut dec, KB_GET_CHAR_POLL, NO_SCANCODE), (None, KbStep::Reply(KEY_NONE)));
    assert_eq!(serve_scancode(&mut dec, KB_GET_CHAR, NO_SCANCODE), (None, KbStep::Retry));
}

#[test]
fn the_console_shell_turns_scancodes_into_a_line() {
    let mut dec = KeyDecoder::new();
    let mut ed = LineEditor::unbounded();
    // h, i, then a release, a function key, backspace, i again.
    assert!(matches!(shell_step(&mut ed, &mut dec, 0x23), Some((KeyInput::Unicode('h'), EditAction::Echo(b'h')))));
    assert!(matches!(shell_step(&mut ed, &mut dec, 0x17), Some((KeyInput::Unicode('i'), EditAction::Echo(b'i')))));
    assert!(shell_step(&mut ed, &mut dec, 0x97).is_none());
    assert!(matches!(shell_step(&mut ed, &mut dec, 0x3B), Some((KeyInput::OtherRaw, EditAction::Ignore))));
    assert!(matches!(shell_step(&mut ed, &mut dec, 0x0E), Some((KeyInput::Unicode('\u{8}'), EditAction::Erase))));
    assert_eq!(ed.line(), b"h");
    assert!(matches!(shell_step(&mut ed, &mut dec, 0x17), Some((KeyInput::Unicode('i'), EditAction::Echo(b'i')))));
    match shell_step(&mut ed, &mut dec, 0x1C) {
        Some((KeyInput::Unicode('\n'), EditAction::Submit(line))) => assert_eq!(line, b"hi".to_vec()),
        _ => panic!("Enter should submit the line"),
    }
    assert_eq!(ed.line(), b"");
}

#[test]
fn user_ranges_are_valid_when_every_page_is_mapped() {
    let seen = std::cell::RefCell::new(Vec::new());
    let mapped = |page: u64| {
        seen.borrow_mut().push(page);
        page != 0x5000
    };
    assert!(umbra::paging::user_range_valid(0x1FF0, 0x2020, &mapped));
    assert_eq!(*seen.borrow(), vec![0x1000, 0x2000, 0x3000, 0x4000]);
    seen.borrow_mut().clear();
    assert!(!umbra::paging::user_range_valid(0x3000, 0x4000, &mapped));
    assert_eq!(*seen.borrow(), vec![0x3000, 0x4000, 0x5000]);
    seen.borrow_mut().clear();
    assert!(umbra::paging::user_range_valid(0x5000, 0, &mapped));
    assert!(!umbra::paging::user_range_valid(0x8000_0000_0000, 8, &mapped));
    assert!(!umbra::paging::user_range_valid(u64::MAX, 2, &mapped));
    assert!(seen.borrow().is_empty());
}

#[test]
fn the_decoder_reports_keys_as_bytes_complete_them() {
    let mut dec = KeyDecoder::new();
    // An extended-key prefix completes nothing; the byte after it does.
    assert_eq!(dec.decode(0xE0), None);
    assert_eq!(dec.decode(0x48), Some(KeyInput::OtherRaw));
    assert_eq!(dec.decode(0xE0), None);
    assert_eq!(dec.decode(0xC8), None);
    assert_eq!(dec.decode(0x10), Some(KeyInput::Unicode('q')));
    assert_eq!(dec.decode(0x1C), Some(KeyInput::Unicode('\n')));
}
