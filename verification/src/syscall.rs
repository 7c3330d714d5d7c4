use vstd::prelude::*;

use crate::caps::{decode_cap, spec_decode_cap, Cap, CapTable};
use crate::protocol::SERVICE_MANAGER;
use crate::ipc::{EndpointId, IpcState, Message, SendError, MAX_ENDPOINTS, spec_enqueue, spec_dequeue};
use crate::process::{
    block_on, exit, set_state, wake_waiting, waits_for, with_state, with_state_and_wait, woken_for,
    ProcessTable, State, Wait, MAX_PROCESSES,
};

verus! {

/// Syscall numbers.
pub const SYS_YIELD: u64 = 7;
pub const SYS_EXIT: u64 = 8;
pub const SYS_MMAP: u64 = 10;
pub const SYS_INB: u64 = 11;
pub const SYS_OUTB: u64 = 12;
pub const SYS_INW: u64 = 13;
pub const SYS_OUTW: u64 = 14;
pub const SYS_INL: u64 = 15;
pub const SYS_OUTL: u64 = 16;
pub const SYS_GRANT_CAP: u64 = 19;
pub const SYS_IPC_SEND: u64 = 100;
pub const SYS_IPC_RECV: u64 = 101;
pub const SYS_IPC_CALL: u64 = 102;
pub const SYS_IPC_CLAIM_ENDPOINT: u64 = 103;
pub const SYS_IPC_CREATE_ENDPOINT: u64 = 104;
pub const SYS_SPAWN: u64 = 105;
pub const SYS_IPC_REPLY: u64 = 106;

/// Longest program name `spawn` accepts.
pub const MAX_SPAWN_NAME: usize = 64;

/// Returned for a failed request.
pub const SYSCALL_ERROR: u64 = 0xFFFF_FFFF_FFFF_FFFF;
/// Returned by a send whose target queue is full.
pub const SYSCALL_QUEUE_FULL: u64 = 0xFFFF_FFFF_FFFF_FFFE;

/// A decoded syscall: the number in `rax` and the arguments in `rdi`,
/// `rsi`, `rdx`, each truncated to the width the request uses.
#[allow(inconsistent_fields)]
#[derive(Debug, Clone, Copy, PartialEq, Eq)]
pub enum Syscall {
    Yield,
    Exit,
    MapPhysical { phys: u64, virt: u64, size: usize },
    PortReadU8 { port: u16 },
    PortWriteU8 { port: u16, value: u8 },
    PortReadU16 { port: u16 },
    PortWriteU16 { port: u16, value: u16 },
    PortReadU32 { port: u16 },
    PortWriteU32 { port: u16, value: u32 },
    GrantCap { target: usize, kind: u64, arg: u64 },
    IpcSend { endpoint: EndpointId, msg_addr: u64 },
    IpcRecv { endpoint: EndpointId, msg_addr: u64 },
    IpcCall { endpoint: EndpointId, send_addr: u64, recv_addr: u64 },
    ClaimEndpoint { endpoint: EndpointId },
    CreateEndpoint,
    Spawn { name_addr: u64, name_len: usize },
    IpcReply { endpoint: EndpointId, msg_addr: u64 },
    Unknown,
}

/// Decodes the registers of a `syscall` instruction.
pub fn decode_syscall(nr: u64, rdi: u64, rsi: u64, rdx: u64) -> (s: Syscall)
    ensures
        nr == SYS_YIELD ==> s == Syscall::Yield,
        nr == SYS_EXIT ==> s == Syscall::Exit,
        nr == SYS_MMAP ==> s == (Syscall::MapPhysical { phys: rdi, virt: rsi, size: rdx as usize }),
        nr == SYS_INB ==> s == (Syscall::PortReadU8 { port: rdi as u16 }),
        nr == SYS_OUTB ==> s == (Syscall::PortWriteU8 { port: rdi as u16, value: rsi as u8 }),
        nr == SYS_INW ==> s == (Syscall::PortReadU16 { port: rdi as u16 }),
        nr == SYS_OUTW ==> s == (Syscall::PortWriteU16 { port: rdi as u16, value: rsi as u16 }),
        nr == SYS_INL ==> s == (Syscall::PortReadU32 { port: rdi as u16 }),
        nr == SYS_OUTL ==> s == (Syscall::PortWriteU32 { port: rdi as u16, value: rsi as u32 }),
        nr == SYS_GRANT_CAP ==> s == (Syscall::GrantCap { target: rdi as usize, kind: rsi, arg: rdx }),
        nr == SYS_IPC_SEND ==> s == (Syscall::IpcSend { endpoint: EndpointId(rdi as usize), msg_addr: rsi }),
        nr == SYS_IPC_RECV ==> s == (Syscall::IpcRecv { endpoint: EndpointId(rdi as usize), msg_addr: rsi }),
        nr == SYS_IPC_CALL ==> s == (Syscall::IpcCall {
            endpoint: EndpointId(rdi as usize),
            send_addr: rsi,
            recv_addr: rdx,
        }),
        nr == SYS_IPC_CLAIM_ENDPOINT ==> s == (Syscall::ClaimEndpoint { endpoint: EndpointId(rdi as usize) }),
        nr == SYS_IPC_CREATE_ENDPOINT ==> s == Syscall::CreateEndpoint,
        nr == SYS_SPAWN ==> s == (Syscall::Spawn { name_addr: rdi, name_len: rsi as usize }),
        nr == SYS_IPC_REPLY ==> s == (Syscall::IpcReply { endpoint: EndpointId(rdi as usize), msg_addr: rsi }),
        !(nr == SYS_YIELD || nr == SYS_EXIT || (SYS_MMAP <= nr <= SYS_OUTL) || nr == SYS_GRANT_CAP || (
        SYS_IPC_SEND <= nr <= SYS_IPC_REPLY)) ==> s == Syscall::Unknown,
{
    match nr {
        7 => Syscall::Yield,
        8 => Syscall::Exit,
        10 => Syscall::MapPhysical { phys: rdi, virt: rsi, size: rdx as usize },
        11 => Syscall::PortReadU8 { port: rdi as u16 },
        12 => Syscall::PortWriteU8 { port: rdi as u16, value: rsi as u8 },
        13 => Syscall::PortReadU16 { port: rdi as u16 },
        14 => Syscall::PortWriteU16 { port: rdi as u16, value: rsi as u16 },
        15 => Syscall::PortReadU32 { port: rdi as u16 },
        16 => Syscall::PortWriteU32 { port: rdi as u16, value: rsi as u32 },
        19 => Syscall::GrantCap { target: rdi as usize, kind: rsi, arg: rdx },
        100 => Syscall::IpcSend { endpoint: EndpointId(rdi as usize), msg_addr: rsi },
        101 => Syscall::IpcRecv { endpoint: EndpointId(rdi as usize), msg_addr: rsi },
        102 => Syscall::IpcCall { endpoint: EndpointId(rdi as usize), send_addr: rsi, recv_addr: rdx },
        103 => Syscall::ClaimEndpoint { endpoint: EndpointId(rdi as usize) },
        104 => Syscall::CreateEndpoint,
        105 => Syscall::Spawn { name_addr: rdi, name_len: rsi as usize },
        106 => Syscall::IpcReply { endpoint: EndpointId(rdi as usize), msg_addr: rsi },
        _ => Syscall::Unknown,
    }
}

/// The code a send returns to user space: 0 on delivery, the queue-full code
/// when the target's queue is full, and the error code for a missing endpoint.
pub open spec fn send_code(r: Result<(), SendError>) -> u64 {
    match r {
        Ok(()) => 0,
        Err(SendError::InvalidEndpoint) => SYSCALL_ERROR,
        Err(SendError::QueueFull(_)) => SYSCALL_QUEUE_FULL,
    }
}

/// The effect of sending `msg` to `endpoint` on the IPC state, with the
/// code returned: delivery into the endpoint's incoming queue (code 0),
/// the queue-full code with nothing changed, or the error code for a
/// missing endpoint; no other endpoint changes.
pub open spec fn send_effect(before: IpcState, after: IpcState, endpoint: EndpointId, msg: Message, code: u64) -> bool {
    &&& after.wf()
    &&& match before.registry.inbox_of(endpoint) {
        None => code == SYSCALL_ERROR && after.registry.same_slots(before.registry),
        Some(q) => match spec_enqueue(q, msg) {
            Some(s) => code == 0 && after.registry.inbox_of(endpoint) == Some(s),
            None => code == SYSCALL_QUEUE_FULL && after.registry.same_slots(before.registry),
        },
    }
    &&& forall|j: int|
        0 <= j < MAX_ENDPOINTS && j != endpoint.0 ==> after.registry.slot(j) == before.registry.slot(j)
}

/// Handles `ipc_send`: a kernel service may take the message; otherwise it
/// is delivered to the endpoint. Returns the user-visible code; on 0 the
/// caller wakes any process blocked on the endpoint.
pub fn sys_ipc_send(ipc: &mut IpcState, endpoint: EndpointId, msg: Message) -> (code: u64)
    requires
        old(ipc).wf(),
    ensures
        send_effect(*old(ipc), *final(ipc), endpoint, msg, code),
{
    if ipc.handle_kernel_service(endpoint, &msg) {
        return 0;
    }
    match ipc.send(endpoint, msg) {
        Ok(()) => 0,
        Err(SendError::InvalidEndpoint) => SYSCALL_ERROR,
        Err(SendError::QueueFull(_)) => SYSCALL_QUEUE_FULL,
    }
}

/// What a receive (or the wait for a reply) does when it runs: hand over a
/// message, block the caller until one arrives, or fail.
#[derive(Debug, Clone, Copy)]
pub enum RecvOutcome {
    Received(Message),
    Block,
    Fail,
}

/// Taking the oldest message of queue `before` (`None`: there is no such
/// endpoint), leaving `after`: the message, or, on an empty queue, `Block`
/// when the caller may block and `Fail` otherwise; a missing endpoint fails.
pub open spec fn take_effect(before: Option<Seq<Message>>, after: Option<Seq<Message>>, can_block: bool, r: RecvOutcome) -> bool {
    match before {
        None => r is Fail && after is None,
        Some(q) => match spec_dequeue(q) {
            Some((m, s)) => r == RecvOutcome::Received(m) && after == Some(s),
            None => r == (if can_block {
                RecvOutcome::Block
            } else {
                RecvOutcome::Fail
            }) && after == Some(q),
        },
    }
}

/// The effect of a receive on `endpoint`: the oldest delivered message is
/// taken from its incoming queue; its outgoing queue, its owner and every
/// other endpoint stay as they were.
pub open spec fn recv_effect(before: IpcState, after: IpcState, endpoint: EndpointId, can_block: bool, r: RecvOutcome) -> bool {
    &&& after.wf()
    &&& take_effect(before.registry.inbox_of(endpoint), after.registry.inbox_of(endpoint), can_block, r)
    &&& after.registry.outbox_of(endpoint) == before.registry.outbox_of(endpoint)
    &&& after.registry.owner_of(endpoint) == before.registry.owner_of(endpoint)
    &&& forall|j: int|
        0 <= j < MAX_ENDPOINTS && j != endpoint.0 ==> after.registry.slot(j) == before.registry.slot(j)
}

/// The effect of waiting for a reply on `endpoint`: the oldest reply posted
/// by the endpoint's owner is taken from its outgoing queue; its incoming
/// queue, its owner and every other endpoint stay as they were.
pub open spec fn reply_wait_effect(before: IpcState, after: IpcState, endpoint: EndpointId, can_block: bool, r: RecvOutcome) -> bool {
    &&& after.wf()
    &&& take_effect(before.registry.outbox_of(endpoint), after.registry.outbox_of(endpoint), can_block, r)
    &&& after.registry.inbox_of(endpoint) == before.registry.inbox_of(endpoint)
    &&& after.registry.owner_of(endpoint) == before.registry.owner_of(endpoint)
    &&& forall|j: int|
        0 <= j < MAX_ENDPOINTS && j != endpoint.0 ==> after.registry.slot(j) == before.registry.slot(j)
}

/// Handles one attempt of `ipc_recv`: the oldest message delivered to
/// `endpoint`, `Block` when none is waiting, `Fail` when there is no such
/// endpoint.
pub fn sys_ipc_recv(ipc: &mut IpcState, endpoint: EndpointId) -> (r: RecvOutcome)
    requires
        old(ipc).wf(),
    ensures
        recv_effect(*old(ipc), *final(ipc), endpoint, true, r),
{
    if ipc.registry.get(endpoint).is_none() {
        return RecvOutcome::Fail;
    }
    match ipc.recv(endpoint) {
        Some(m) => RecvOutcome::Received(m),
        None => RecvOutcome::Block,
    }
}

/// Handles the send half of `ipc_call`: a kernel call service may answer at
/// once (`Ok(Some(reply))`); otherwise the request is delivered to the
/// endpoint's incoming queue (`Ok(None)`; the receivers waiting there are
/// woken, and the caller then waits for the reply), and any delivery failure
/// is the error code. The endpoint's outgoing queue, where replies arrive,
/// is left alone.
pub fn sys_ipc_call_send(ipc: &mut IpcState, table: &mut ProcessTable, endpoint: EndpointId, msg: Message) -> (r:
    Result<Option<Message>, u64>)
    requires
        old(ipc).wf(),
        old(table).wf(),
    ensures
        final(ipc).wf(),
        final(table).wf(),
        final(table).current_spec() == old(table).current_spec(),
        match old(ipc).registry.inbox_of(endpoint) {
            None => r == Err::<Option<Message>, u64>(SYSCALL_ERROR) && final(ipc).registry.same_slots(
                old(ipc).registry,
            ),
            Some(q) => match spec_enqueue(q, msg) {
                Some(s) => r == Ok::<Option<Message>, u64>(None) && final(ipc).registry.inbox_of(endpoint)
                    == Some(s),
                None => r == Err::<Option<Message>, u64>(SYSCALL_ERROR) && final(ipc).registry.same_slots(old(ipc).registry),
            },
        },
        final(ipc).registry.outbox_of(endpoint) == old(ipc).registry.outbox_of(endpoint),
        final(ipc).registry.owner_of(endpoint) == old(ipc).registry.owner_of(endpoint),
        forall|j: int|
            0 <= j < MAX_ENDPOINTS && j != endpoint.0 ==> final(ipc).registry.slot(j) == old(ipc).registry.slot(j),
        r is Ok ==> forall|j: int|
            0 <= j < MAX_PROCESSES ==> #[trigger] woken_for(
                old(table).slot(j),
                final(table).slot(j),
                Wait::Message(endpoint.0),
            ),
        r is Err ==> final(table).slots() == old(table).slots(),
{
    match ipc.handle_kernel_call(endpoint, &msg) {
        Some(reply) => {
            return Ok(Some(reply));
        },
        None => {},
    }
    match ipc.send(endpoint, msg) {
        Ok(()) => {
            wake_waiting(table, Wait::Message(endpoint.0));
            Ok(None)
        },
        Err(_) => Err(SYSCALL_ERROR),
    }
}

/// One attempt of the wait for a reply in `ipc_call` by the process in slot
/// `current`: the oldest reply posted on `endpoint` is handed over; with
/// none posted, a user process is marked blocked waiting for a reply there
/// (`Block`), while the kernel's slot 0, which cannot block, fails; a
/// missing endpoint fails.
pub fn await_reply(ipc: &mut IpcState, table: &mut ProcessTable, current: usize, endpoint: EndpointId) -> (r: RecvOutcome)
    requires
        old(ipc).wf(),
        old(table).wf(),
    ensures
        reply_wait_effect(*old(ipc), *final(ipc), endpoint, current != 0, r),
        final(table).wf(),
        r is Block ==> with_state_and_wait(*old(table), *final(table), current, State::Blocked, Some(Wait::Reply(endpoint.0))),
        !(r is Block) ==> final(table).slots() == old(table).slots()
            && final(table).current_spec() == old(table).current_spec(),
{
    if ipc.registry.get(endpoint).is_none() {
        return RecvOutcome::Fail;
    }
    match ipc.registry.take_reply(endpoint) {
        Some(m) => RecvOutcome::Received(m),
        None => {
            if current != 0 {
                block_on(table, current, Wait::Reply(endpoint.0));
                RecvOutcome::Block
            } else {
                RecvOutcome::Fail
            }
        },
    }
}

/// Handles `ipc_reply` by the process in slot `current`: only the owner of
/// `endpoint` may answer calls made on it. The reply is queued on the
/// endpoint's outgoing queue (0, and the callers waiting there are woken),
/// or the queue-full code comes back; the error code when `current` does not
/// own the endpoint (or there is none).
pub fn sys_ipc_reply(ipc: &mut IpcState, table: &mut ProcessTable, current: usize, endpoint: EndpointId, msg: Message) -> (code: u64)
    requires
        old(ipc).wf(),
        old(table).wf(),
    ensures
        final(ipc).wf(),
        final(table).wf(),
        final(table).current_spec() == old(table).current_spec(),
        old(ipc).registry.owner_of(endpoint) != Some(current) ==> code == SYSCALL_ERROR
            && final(ipc).registry.same_slots(old(ipc).registry) && final(table).slots() == old(
            table,
        ).slots(),
        old(ipc).registry.owner_of(endpoint) == Some(current) ==> match spec_enqueue(
            old(ipc).registry.outbox_of(endpoint)->Some_0,
            msg,
        ) {
            Some(s) => {
                &&& code == 0
                &&& final(ipc).registry.outbox_of(endpoint) == Some(s)
                &&& forall|j: int|
                    0 <= j < MAX_PROCESSES ==> #[trigger] woken_for(
                        old(table).slot(j),
                        final(table).slot(j),
                        Wait::Reply(endpoint.0),
                    )
            },
            None => code == SYSCALL_QUEUE_FULL && final(ipc).registry.same_slots(old(ipc).registry)
                && final(table).slots() == old(table).slots(),
        },
        final(ipc).registry.inbox_of(endpoint) == old(ipc).registry.inbox_of(endpoint),
        final(ipc).registry.owner_of(endpoint) == old(ipc).registry.owner_of(endpoint),
        forall|j: int|
            0 <= j < MAX_ENDPOINTS && j != endpoint.0 ==> final(ipc).registry.slot(j) == old(ipc).registry.slot(j),
{
    let allowed = match ipc.registry.owner(endpoint) {
        Some(owner) => owner == current,
        None => false,
    };
    if !allowed {
        return SYSCALL_ERROR;
    }
    match ipc.registry.post_reply(endpoint, msg) {
        Ok(()) => {
            wake_waiting(table, Wait::Reply(endpoint.0));
            0
        },
        Err(SendError::InvalidEndpoint) => SYSCALL_ERROR,
        Err(SendError::QueueFull(_)) => SYSCALL_QUEUE_FULL,
    }
}

/// Handles `grant_cap` by the process in slot `current`: only the owner of
/// the service manager's endpoint may hand out capabilities. The request
/// names the target slot, the kind of capability and its argument; 0 when
/// the target now holds it, the error code otherwise (not allowed, unknown
/// kind, bad slot, or no room left).
pub fn sys_grant_cap(caps: &mut CapTable, ipc: &IpcState, current: usize, target: usize, kind: u64, arg: u64) -> (code: u64)
    requires
        old(caps).wf(),
        ipc.wf(),
    ensures
        final(caps).wf(),
        code == 0 || code == SYSCALL_ERROR,
        code == 0 <==> ipc.registry.owner_of(EndpointId(SERVICE_MANAGER)) == Some(
            current,
        ) && spec_decode_cap(kind, arg) is Some && old(caps).can_grant(
            target,
            spec_decode_cap(kind, arg)->Some_0,
        ),
        code == 0 ==> final(caps).grants_after(*old(caps), target, spec_decode_cap(kind, arg)->Some_0),
        code != 0 ==> final(caps).same_grants(*old(caps)),
{
    let allowed = match ipc.registry.owner(EndpointId(SERVICE_MANAGER)) {
        Some(owner) => owner == current,
        None => false,
    };
    if !allowed {
        return SYSCALL_ERROR;
    }
    match decode_cap(kind, arg) {
        Some(cap) => if caps.grant(target, cap) {
            0
        } else {
            SYSCALL_ERROR
        },
        None => SYSCALL_ERROR,
    }
}

/// Whether the process in slot `current` may perform port I/O on `port`:
/// exactly when it holds the capability for that port.
pub fn port_permitted(caps: &CapTable, current: usize, port: u16) -> (b: bool)
    requires
        caps.wf(),
    ensures
        b == caps.holds(current as int, Cap::Port(port)),
{
    caps.has(current, Cap::Port(port))
}

/// Handles `claim_endpoint` for process slot `current`: the kernel's slot
/// 0 may not claim; otherwise 0 when the claim succeeds, the error code
/// when the id is out of range or taken.
pub fn sys_claim_endpoint(ipc: &mut IpcState, endpoint: EndpointId, current: usize) -> (code: u64)
    requires
        old(ipc).wf(),
    ensures
        final(ipc).wf(),
        current == 0 ==> code == SYSCALL_ERROR && final(ipc).registry.same_slots(old(ipc).registry),
        current != 0 ==> {
            &&& code == 0 <==> old(ipc).registry.can_claim(endpoint)
            &&& code != 0 ==> code == SYSCALL_ERROR && final(ipc).registry.same_slots(
                old(ipc).registry,
            )
            &&& code == 0 ==> {
                &&& final(ipc).registry.slot(endpoint.0 as int) is Some
                &&& final(ipc).registry.slot(endpoint.0 as int)->Some_0.is_fresh(endpoint, Some(current))
                &&& forall|j: int|
                    0 <= j < MAX_ENDPOINTS && j != endpoint.0 ==> final(ipc).registry.slot(j) == old(ipc).registry.slot(j)
            }
        },
{
    if current == 0 {
        return SYSCALL_ERROR;
    }
    match ipc.registry.claim_endpoint(endpoint, Some(current)) {
        Ok(()) => 0,
        Err(()) => SYSCALL_ERROR,
    }
}

/// Handles `create_endpoint` for process slot `current`: the kernel's slot
/// 0 may not create; otherwise the new endpoint's id, or the error code
/// when the registry is full.
pub fn sys_create_endpoint(ipc: &mut IpcState, current: usize) -> (code: u64)
    requires
        old(ipc).wf(),
    ensures
        final(ipc).wf(),
        current == 0 ==> code == SYSCALL_ERROR && final(ipc).registry.same_slots(old(ipc).registry),
        current != 0 ==> {
            ||| {
                &&& old(ipc).registry.is_first_free(code as int)
                &&& final(ipc).registry.next_hint() == (code + 1) % (MAX_ENDPOINTS as int)
                &&& final(ipc).registry.slot(code as int) is Some
                &&& final(ipc).registry.slot(code as int)->Some_0.is_fresh(
                    EndpointId(code as usize),
                    Some(current),
                )
                &&& forall|j: int|
                    0 <= j < MAX_ENDPOINTS && j != code ==> final(ipc).registry.slot(j) == old(ipc).registry.slot(j)
            }
            ||| {
                &&& code == SYSCALL_ERROR
                &&& forall|j: int| 0 <= j < MAX_ENDPOINTS ==> old(ipc).registry.slot(j) is Some
                &&& final(ipc).registry.same_slots(old(ipc).registry)
            }
        },
{
    if current == 0 {
        return SYSCALL_ERROR;
    }
    match ipc.create_endpoint(Some(current)) {
        Some(id) => id.0 as u64,
        None => SYSCALL_ERROR,
    }
}

/// Whether a program name of `name_len` bytes may be looked up by `spawn`.
pub fn spawn_name_len_ok(name_len: usize) -> (b: bool)
    ensures
        b == (name_len <= MAX_SPAWN_NAME),
{
    name_len <= MAX_SPAWN_NAME
}

/// Before a syscall runs, a reschedule requested by the timer switches away
/// from the running slot `current` to `pending` when `current` is a user
/// process, a target was recorded, and it is a different slot.
pub fn should_switch_before_syscall(current: usize, pending: usize) -> (b: bool)
    ensures
        b == (current != 0 && pending != usize::MAX && pending != current),
{
    current != 0 && pending != usize::MAX && pending != current
}

/// What a user-space sender does with the code `ipc_send` returned.
#[derive(Debug, Clone, Copy, PartialEq, Eq)]
pub enum SendOutcome {
    /// Delivered.
    Sent,
    /// The target's queue is full: yield and send again.
    Retry,
    /// The send failed for good.
    Failed,
}

/// The sender's reading of a send code.
pub open spec fn send_outcome_spec(code: u64) -> SendOutcome {
    if code == 0 {
        SendOutcome::Sent
    } else if code == SYSCALL_ERROR {
        SendOutcome::Failed
    } else {
        SendOutcome::Retry
    }
}

/// Interprets the code of `ipc_send` for a sender that retries while the
/// target's queue is full: 0 is delivery, the error code is failure, any
/// other code asks for another try.
pub fn send_outcome(code: u64) -> (r: SendOutcome)
    ensures
        r == send_outcome_spec(code),
{
    if code == 0 {
        SendOutcome::Sent
    } else if code == SYSCALL_ERROR {
        SendOutcome::Failed
    } else {
        SendOutcome::Retry
    }
}

/// Interprets the result of `create_endpoint` in user space: the new
/// endpoint's id, or `None` for the error code.
pub fn created_endpoint(code: u64) -> (r: Option<usize>)
    ensures
        code == SYSCALL_ERROR ==> r is None,
        code != SYSCALL_ERROR ==> r == Some(code as usize),
{
    if code == SYSCALL_ERROR {
        None
    } else {
        Some(code as usize)
    }
}

/// The kernel's answer to a send tells a retrying sender what to do: a full
/// queue yields a code that is neither success nor the error code, so the
/// sender tries again; delivery is 0 and a missing endpoint the error code.
pub proof fn law_full_queue_is_retried(r: Result<(), SendError>)
    ensures
        r matches Err(SendError::QueueFull(_)) ==> send_code(r) != 0 && send_code(r)
            != SYSCALL_ERROR && send_outcome_spec(send_code(r)) == SendOutcome::Retry,
        r is Ok ==> send_outcome_spec(send_code(r)) == SendOutcome::Sent,
        r matches Err(SendError::InvalidEndpoint) ==> send_outcome_spec(send_code(r))
            == SendOutcome::Failed,
{
}

/// `ipc_send` as the kernel performs it: the send, then, once the message
/// was delivered, the processes blocked receiving on that endpoint (and no
/// others) are made ready to retry their receive.
pub fn send_and_wake(ipc: &mut IpcState, table: &mut ProcessTable, endpoint: EndpointId, msg: Message) -> (code: u64)
    requires
        old(ipc).wf(),
        old(table).wf(),
    ensures
        send_effect(*old(ipc), *final(ipc), endpoint, msg, code),
        final(table).wf(),
        final(table).current_spec() == old(table).current_spec(),
        code == 0 ==> forall|j: int|
            0 <= j < MAX_PROCESSES ==> #[trigger] woken_for(
                old(table).slot(j),
                final(table).slot(j),
                Wait::Message(endpoint.0),
            ),
        code != 0 ==> final(table).slots() == old(table).slots(),
{
    let code = sys_ipc_send(ipc, endpoint, msg);
    if code == 0 {
        wake_waiting(table, Wait::Message(endpoint.0));
    }
    code
}

/// One attempt of `ipc_recv` by the process in slot `current`: a waiting
/// message is handed over; with none waiting, a user process is marked
/// blocked until a message is delivered to that endpoint (`Block`: it gives
/// up the CPU and tries again once woken), while the kernel's slot 0, which
/// cannot block, fails; a missing endpoint fails.
pub fn recv_or_block(ipc: &mut IpcState, table: &mut ProcessTable, current: usize, endpoint: EndpointId) -> (r: RecvOutcome)
    requires
        old(ipc).wf(),
        old(table).wf(),
    ensures
        recv_effect(*old(ipc), *final(ipc), endpoint, current != 0, r),
        final(table).wf(),
        r is Block ==> with_state_and_wait(*old(table), *final(table), current, State::Blocked, Some(Wait::Message(endpoint.0))),
        !(r is Block) ==> final(table).slots() == old(table).slots()
            && final(table).current_spec() == old(table).current_spec(),
{
    let r = sys_ipc_recv(ipc, endpoint);
    match r {
        RecvOutcome::Block => {
            if current != 0 {
                block_on(table, current, Wait::Message(endpoint.0));
                RecvOutcome::Block
            } else {
                RecvOutcome::Fail
            }
        },
        _ => r,
    }
}

/// `yield` by the process in slot `current`: a user process becomes ready
/// and hands the CPU to the kernel's slot 0 (true); the kernel itself does
/// nothing (false).
pub fn yield_current(table: &mut ProcessTable, current: usize) -> (switch: bool)
    requires
        old(table).wf(),
    ensures
        final(table).wf(),
        switch == (current != 0),
        current != 0 ==> with_state(*old(table), *final(table), current, State::Ready),
        current == 0 ==> final(table).slots() == old(table).slots()
            && final(table).current_spec() == old(table).current_spec(),
{
    if current == 0 {
        return false;
    }
    set_state(table, current, State::Ready);
    true
}

/// `exit` by the process in slot `current`: a user process is marked
/// exited and hands the CPU to the kernel's slot 0 (true); the kernel itself
/// does nothing (false).
pub fn exit_current(table: &mut ProcessTable, current: usize) -> (switch: bool)
    requires
        old(table).wf(),
    ensures
        final(table).wf(),
        switch == (current != 0),
        current != 0 ==> with_state(*old(table), *final(table), current, State::Exited),
        current == 0 ==> final(table).slots() == old(table).slots()
            && final(table).current_spec() == old(table).current_spec(),
{
    if current == 0 {
        return false;
    }
    exit(table, current);
    true
}

/// Before a syscall runs: when the timer asked for `pending` and it differs
/// from the running user process `current`, that process becomes ready and
/// the CPU goes to `pending` (true).
pub fn reschedule_before_syscall(table: &mut ProcessTable, current: usize, pending: usize) -> (switch: bool)
    requires
        old(table).wf(),
    ensures
        final(table).wf(),
        switch == (current != 0 && pending != usize::MAX && pending != current),
        switch ==> with_state(*old(table), *final(table), current, State::Ready),
        !switch ==> final(table).slots() == old(table).slots()
            && final(table).current_spec() == old(table).current_spec(),
{
    if !should_switch_before_syscall(current, pending) {
        return false;
    }
    set_state(table, current, State::Ready);
    true
}

/// A send wakes only the processes waiting for it: a process blocked
/// receiving on endpoint `e` is made ready by a delivery to `e` and stays
/// blocked, waiting for the same thing, after a delivery anywhere else; a
/// process waiting for a reply is never woken by a send.
pub proof fn law_send_wakes_only_its_receivers(t0: ProcessTable, t1: ProcessTable, t2: ProcessTable, current: usize, e: EndpointId, sent_to: EndpointId)
    requires
        current < MAX_PROCESSES,
        t0.slot(current as int) is Some,
        with_state_and_wait(t0, t1, current, State::Blocked, Some(Wait::Message(e.0))),
        forall|j: int|
            0 <= j < MAX_PROCESSES ==> #[trigger] woken_for(t1.slot(j), t2.slot(j), Wait::Message(sent_to.0)),
    ensures
        t2.slot(current as int) is Some,
        t2.slot(current as int)->Some_0.pid == t0.slot(current as int)->Some_0.pid,
        sent_to.0 == e.0 ==> t2.slot(current as int)->Some_0.state == State::Ready
            && t2.slot(current as int)->Some_0.blocked_on is None,
        sent_to.0 != e.0 ==> waits_for(t2.slot(current as int)->Some_0, Wait::Message(e.0)),
{
    assert(woken_for(t1.slot(current as int), t2.slot(current as int), Wait::Message(sent_to.0)));
}

/// A receive hands over a message only when one was delivered: the code 0
/// always comes with the oldest message of the endpoint's incoming queue; a
/// user process facing an empty queue blocks instead of returning, and only
/// the kernel's slot 0 (which cannot block) or a missing endpoint fails.
pub proof fn law_recv_returns_delivered_message(before: IpcState, after: IpcState, endpoint: EndpointId, current: usize, r: RecvOutcome)
    requires
        recv_effect(before, after, endpoint, current != 0, r),
    ensures
        r matches RecvOutcome::Received(m) ==> before.registry.inbox_of(endpoint) matches Some(q)
            && q.len() > 0 && m == q[0],
        r is Fail ==> current == 0 || before.registry.inbox_of(endpoint) is None,
        r is Block ==> current != 0 && before.registry.inbox_of(endpoint) == Some(Seq::<Message>::empty()),
{
    match before.registry.inbox_of(endpoint) {
        None => {},
        Some(q) => {
            if q.len() == 0 {
                assert(q =~= Seq::<Message>::empty());
            }
        },
    }
}

/// A call never hands the caller back its own request: the request goes to
/// the endpoint's incoming queue, which the wait for the reply does not
/// read; the reply taken is the oldest one the endpoint's owner had posted
/// before the call, and with none posted the caller blocks (or, as the
/// kernel, fails).
pub proof fn law_call_reply_is_posted_reply(
    before: IpcState,
    mid: IpcState,
    after: IpcState,
    endpoint: EndpointId,
    request: Message,
    current: usize,
    r: RecvOutcome,
)
    requires
        mid.registry.outbox_of(endpoint) == before.registry.outbox_of(endpoint),
        reply_wait_effect(mid, after, endpoint, current != 0, r),
    ensures
        r matches RecvOutcome::Received(m) ==> before.registry.outbox_of(endpoint) matches Some(o)
            && o.len() > 0 && m == o[0],
        before.registry.outbox_of(endpoint) == Some(Seq::<Message>::empty()) ==> !(r is Received),
{
}

} // verus!
