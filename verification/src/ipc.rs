use vstd::prelude::*;

use crate::process::MAX_PROCESSES;

verus! {

/// Size of the payload carried by every message.
pub const IPC_MSG_DATA_SIZE: usize = 64;
/// Number of endpoint slots in the registry.
pub const MAX_ENDPOINTS: usize = 32;
/// Capacity of each message queue.
pub const MAX_PENDING_MESSAGES: usize = 16;

/// A fixed-size IPC message: a tag and a 64-byte payload.
#[derive(Debug, Clone, Copy, PartialEq, Eq)]
pub struct Message {
    pub tag: u32,
    pub data: [u8; IPC_MSG_DATA_SIZE],
}

/// The payload of `Message::new(tag, data)`: `data` truncated to the payload
/// size, padded with zero bytes.
pub open spec fn padded_payload(data: Seq<u8>) -> Seq<u8> {
    Seq::new(IPC_MSG_DATA_SIZE as nat, |i: int| if i < data.len() { data[i] } else { 0u8 })
}

impl Message {
    /// A message with tag 0 and an all-zero payload.
    pub fn empty() -> (m: Message)
        ensures
            m.tag == 0,
            m.data@ == padded_payload(Seq::empty()),
    {
        let m = Message { tag: 0, data: [0u8; IPC_MSG_DATA_SIZE] };
        assert(m.data@ =~= padded_payload(Seq::empty()));
        m
    }

    /// A message with the given tag whose payload starts with `data`
    /// (at most 64 bytes of it) and is zero afterwards.
    pub fn new(tag: u32, data: &[u8]) -> (m: Message)
        ensures
            m.tag == tag,
            m.data@ == padded_payload(data@),
    {
        let mut msg = Message { tag, data: [0u8; IPC_MSG_DATA_SIZE] };
        let copy_len = if data.len() < IPC_MSG_DATA_SIZE { data.len() } else { IPC_MSG_DATA_SIZE };
        let mut i: usize = 0;
        while i < copy_len
            invariant
                copy_len <= IPC_MSG_DATA_SIZE,
                copy_len <= data@.len(),
                copy_len == data@.len() || copy_len == IPC_MSG_DATA_SIZE,
                i <= copy_len,
                msg.tag == tag,
                forall|k: int| 0 <= k < i ==> msg.data@[k] == data@[k],
                forall|k: int| i <= k < IPC_MSG_DATA_SIZE ==> msg.data@[k] == 0u8,
            decreases copy_len - i,
        {
            msg.data[i] = data[i];
            i = i + 1;
        }
        assert(msg.data@ =~= padded_payload(data@));
        msg
    }
}

impl Default for Message {
    /// The empty message: tag 0 and an all-zero payload.
    fn default() -> (m: Message)
        ensures
            m.tag == 0,
            m.data@ == padded_payload(Seq::empty()),
    {
        Message::empty()
    }
}

/// Queue contents after `m` is appended to `s`, or `None` when `s` is full.
pub open spec fn spec_enqueue(s: Seq<Message>, m: Message) -> Option<Seq<Message>> {
    if s.len() < MAX_PENDING_MESSAGES {
        Some(s.push(m))
    } else {
        None
    }
}

/// The message taken from the front of `s` and what remains, or `None`
/// when `s` is empty.
pub open spec fn spec_dequeue(s: Seq<Message>) -> Option<(Message, Seq<Message>)> {
    if s.len() == 0 {
        None
    } else {
        Some((s[0], s.drop_first()))
    }
}

/// Index into the ring for a position `i` in `0..2 * MAX_PENDING_MESSAGES`.
pub open spec fn ring_slot(i: int) -> int {
    if i < MAX_PENDING_MESSAGES {
        i
    } else {
        i - MAX_PENDING_MESSAGES
    }
}

/// Distance from `head` forward to slot `i` around the ring.
pub open spec fn ring_offset(head: int, i: int) -> int {
    if i >= head {
        i - head
    } else {
        i + MAX_PENDING_MESSAGES - head
    }
}

/// Successor of a ring index, wrapping to zero.
fn ring_next(i: usize) -> (r: usize)
    requires
        i < MAX_PENDING_MESSAGES,
    ensures
        r == ring_slot(i + 1),
        r == (i + 1) % (MAX_PENDING_MESSAGES as int),
{
    if i + 1 == MAX_PENDING_MESSAGES {
        0
    } else {
        i + 1
    }
}

/// A bounded FIFO ring buffer of messages.
#[derive(Debug)]
pub struct MessageQueue {
    messages: [Option<Message>; MAX_PENDING_MESSAGES],
    head: usize,
    tail: usize,
    count: usize,
}

impl View for MessageQueue {
    type V = Seq<Message>;

    /// The pending messages, oldest first.
    closed spec fn view(&self) -> Seq<Message> {
        Seq::new(self.count as nat, |k: int| self.messages@[ring_slot(self.head + k)]->Some_0)
    }
}

impl MessageQueue {
    /// The ring-buffer invariant: `count` occupied slots starting at `head`,
    /// `tail` just after them, and every other slot empty.
    pub closed spec fn wf(&self) -> bool {
        &&& self.head < MAX_PENDING_MESSAGES
        &&& self.tail < MAX_PENDING_MESSAGES
        &&& self.count <= MAX_PENDING_MESSAGES
        &&& self.tail == ring_slot(self.head + self.count)
        &&& forall|i: int|
            0 <= i < MAX_PENDING_MESSAGES ==> (#[trigger] self.messages@[i] is Some <==> ring_offset(
                self.head as int,
                i,
            ) < self.count)
    }

    /// An empty queue.
    pub fn new() -> (q: MessageQueue)
        ensures
            q.wf(),
            q@ == Seq::<Message>::empty(),
    {
        let q = MessageQueue { messages: [None; MAX_PENDING_MESSAGES], head: 0, tail: 0, count: 0 };
        assert(q@ =~= Seq::<Message>::empty());
        q
    }

    /// Appends `msg`; a full queue hands the message back unchanged.
    pub fn send(&mut self, msg: Message) -> (r: Result<(), Message>)
        requires
            old(self).wf(),
        ensures
            final(self).wf(),
            match spec_enqueue(old(self)@, msg) {
                Some(s) => r is Ok && final(self)@ == s,
                None => r == Err::<(), Message>(msg) && *final(self) == *old(self),
            },
            final(self)@ == queue_after(old(self)@, Some(msg)),
    {
        if self.count >= MAX_PENDING_MESSAGES {
            return Err(msg);
        }
        let ghost old_q = self@;
        self.messages[self.tail] = Some(msg);
        self.tail = ring_next(self.tail);
        self.count = self.count + 1;
        assert(self@ =~= old_q.push(msg));
        Ok(())
    }

    /// Removes and returns the oldest message, if any.
    pub fn recv(&mut self) -> (r: Option<Message>)
        requires
            old(self).wf(),
        ensures
            final(self).wf(),
            match spec_dequeue(old(self)@) {
                Some((m, s)) => r == Some(m) && final(self)@ == s,
                None => r is None && final(self)@ == old(self)@,
            },
            final(self)@ == queue_after(old(self)@, None),
    {
        if self.count == 0 {
            return None;
        }
        let ghost old_q = self@;
        let msg = self.messages[self.head].take();
        self.head = ring_next(self.head);
        self.count = self.count - 1;
        assert(self@ =~= old_q.drop_first());
        msg
    }

    /// Whether no message is pending.
    pub fn is_empty(&self) -> (b: bool)
        requires
            self.wf(),
        ensures
            b == (self@.len() == 0),
    {
        self.count == 0
    }

    /// Number of pending messages.
    pub fn len(&self) -> (n: usize)
        requires
            self.wf(),
        ensures
            n == self@.len(),
    {
        self.count
    }
}

/// Identifier of an endpoint: its slot in the registry.
#[derive(Debug, Clone, Copy, PartialEq, Eq, Structural)]
pub struct EndpointId(pub usize);

/// A communication endpoint with an outgoing and an incoming queue.
#[derive(Debug)]
pub struct Endpoint {
    pub id: EndpointId,
    send_queue: MessageQueue,
    recv_queue: MessageQueue,
    owner: Option<usize>,
}

impl Endpoint {
    /// Both queues are well formed.
    pub closed spec fn wf(&self) -> bool {
        self.send_queue.wf() && self.recv_queue.wf()
    }

    /// Each queue of a well-formed endpoint holds at most
    /// `MAX_PENDING_MESSAGES` messages.
    pub proof fn lemma_bounded(&self)
        requires
            self.wf(),
        ensures
            self.inbox().len() <= MAX_PENDING_MESSAGES,
            self.outbox().len() <= MAX_PENDING_MESSAGES,
    {
        law_queue_bounded(self.send_queue);
        law_queue_bounded(self.recv_queue);
    }

    /// The endpoint's id.
    pub closed spec fn ident(&self) -> EndpointId {
        self.id
    }

    /// Messages the endpoint has queued for sending, oldest first.
    pub closed spec fn outbox(&self) -> Seq<Message> {
        self.send_queue@
    }

    /// Messages delivered to the endpoint and not yet received, oldest first.
    pub closed spec fn inbox(&self) -> Seq<Message> {
        self.recv_queue@
    }

    /// The process slot that owns the endpoint, if any.
    pub closed spec fn owner_id(&self) -> Option<usize> {
        self.owner
    }

    /// A fresh endpoint: the given id and owner, both queues empty.
    pub open spec fn is_fresh(&self, id: EndpointId, owner: Option<usize>) -> bool {
        &&& self.wf()
        &&& self.ident() == id
        &&& self.owner_id() == owner
        &&& self.outbox() == Seq::<Message>::empty()
        &&& self.inbox() == Seq::<Message>::empty()
    }

    /// Creates an endpoint with empty queues.
    pub fn new(id: EndpointId, owner: Option<usize>) -> (e: Endpoint)
        ensures
            e.is_fresh(id, owner),
    {
        Endpoint { id, send_queue: MessageQueue::new(), recv_queue: MessageQueue::new(), owner }
    }

    /// Queues `msg` on the outgoing queue; a full queue hands it back.
    pub fn send(&mut self, msg: Message) -> (r: Result<(), Message>)
        requires
            old(self).wf(),
        ensures
            final(self).wf(),
            final(self).ident() == old(self).ident(),
            final(self).owner_id() == old(self).owner_id(),
            final(self).inbox() == old(self).inbox(),
            match spec_enqueue(old(self).outbox(), msg) {
                Some(s) => r is Ok && final(self).outbox() == s,
                None => r == Err::<(), Message>(msg) && *final(self) == *old(self),
            },
    {
        self.send_queue.send(msg)
    }

    /// Takes the oldest delivered message, if any.
    pub fn recv(&mut self) -> (r: Option<Message>)
        requires
            old(self).wf(),
        ensures
            final(self).wf(),
            final(self).ident() == old(self).ident(),
            final(self).owner_id() == old(self).owner_id(),
            final(self).outbox() == old(self).outbox(),
            match spec_dequeue(old(self).inbox()) {
                Some((m, s)) => r == Some(m) && final(self).inbox() == s,
                None => r is None && final(self).inbox() == old(self).inbox(),
            },
            final(self).inbox() == queue_after(old(self).inbox(), None),
    {
        self.recv_queue.recv()
    }

    /// The process slot that owns the endpoint, if any.
    pub fn owner(&self) -> (r: Option<usize>)
        ensures
            r == self.owner_id(),
    {
        self.owner
    }

    /// Takes the oldest message queued on the outgoing queue, if any.
    pub fn take_sent(&mut self) -> (r: Option<Message>)
        requires
            old(self).wf(),
        ensures
            final(self).wf(),
            final(self).ident() == old(self).ident(),
            final(self).owner_id() == old(self).owner_id(),
            final(self).inbox() == old(self).inbox(),
            match spec_dequeue(old(self).outbox()) {
                Some((m, s)) => r == Some(m) && final(self).outbox() == s,
                None => r is None && final(self).outbox() == old(self).outbox(),
            },
    {
        self.send_queue.recv()
    }

    /// Whether a delivered message is waiting.
    pub fn has_messages(&self) -> (b: bool)
        requires
            self.wf(),
        ensures
            b == (self.inbox().len() > 0),
    {
        !self.recv_queue.is_empty()
    }

    /// Delivers `msg` into the incoming queue; a full queue hands it back.
    pub fn deliver(&mut self, msg: Message) -> (r: Result<(), Message>)
        requires
            old(self).wf(),
        ensures
            final(self).wf(),
            final(self).ident() == old(self).ident(),
            final(self).owner_id() == old(self).owner_id(),
            final(self).outbox() == old(self).outbox(),
            match spec_enqueue(old(self).inbox(), msg) {
                Some(s) => r is Ok && final(self).inbox() == s,
                None => r == Err::<(), Message>(msg) && *final(self) == *old(self),
            },
            final(self).inbox() == queue_after(old(self).inbox(), Some(msg)),
    {
        self.recv_queue.send(msg)
    }
}

/// Why a message could not be delivered.
#[derive(Debug)]
pub enum SendError {
    InvalidEndpoint,
    QueueFull(Message),
}

/// The table of endpoints, indexed by `EndpointId`.
pub struct EndpointRegistry {
    endpoints: Vec<Option<Endpoint>>,
    next_id: usize,
}

impl EndpointRegistry {
    /// Every slot holds a well-formed endpoint whose id is the slot index.
    pub closed spec fn wf(&self) -> bool {
        &&& self.endpoints@.len() == MAX_ENDPOINTS
        &&& self.next_id < MAX_ENDPOINTS
        &&& forall|i: int|
            0 <= i < MAX_ENDPOINTS && #[trigger] self.endpoints@[i] is Some ==> {
                &&& self.endpoints@[i]->Some_0.wf()
                &&& self.endpoints@[i]->Some_0.id.0 == i
            }
    }

    /// The endpoint in slot `i`, if any.
    pub open spec fn slot(&self, i: int) -> Option<Endpoint> {
        self.slots()[i]
    }

    /// All slots, in id order.
    pub closed spec fn slots(&self) -> Seq<Option<Endpoint>> {
        self.endpoints@
    }

    /// Slot where the search for a free endpoint starts.
    pub closed spec fn next_hint(&self) -> int {
        self.next_id as int
    }

    /// The incoming queue of endpoint `id`, or `None` when there is no such endpoint.
    pub open spec fn inbox_of(&self, id: EndpointId) -> Option<Seq<Message>> {
        if id.0 < MAX_ENDPOINTS && self.slot(id.0 as int) is Some {
            Some(self.slot(id.0 as int)->Some_0.inbox())
        } else {
            None
        }
    }

    /// The outgoing queue of endpoint `id`, or `None` when there is no such endpoint.
    pub open spec fn outbox_of(&self, id: EndpointId) -> Option<Seq<Message>> {
        if id.0 < MAX_ENDPOINTS && self.slot(id.0 as int) is Some {
            Some(self.slot(id.0 as int)->Some_0.outbox())
        } else {
            None
        }
    }

    /// The owner of endpoint `id`, or `None` when there is no such endpoint
    /// or it has no owner.
    pub open spec fn owner_of(&self, id: EndpointId) -> Option<usize> {
        if id.0 < MAX_ENDPOINTS && self.slot(id.0 as int) is Some {
            self.slot(id.0 as int)->Some_0.owner_id()
        } else {
            None
        }
    }

    /// Same search hint and the same endpoint in every slot.
    pub open spec fn same_slots(&self, other: EndpointRegistry) -> bool {
        &&& self.next_hint() == other.next_hint()
        &&& forall|j: int| 0 <= j < MAX_ENDPOINTS ==> #[trigger] self.slot(j) == other.slot(j)
    }

    /// Slot `idx` is free and is the first free slot met when searching from
    /// the hint upwards, wrapping around.
    pub open spec fn is_first_free(&self, idx: int) -> bool {
        let k = (idx - self.next_hint() + MAX_ENDPOINTS) % (MAX_ENDPOINTS as int);
        &&& 0 <= idx < MAX_ENDPOINTS
        &&& self.slot(idx) is None
        &&& forall|j: int|
            0 <= j < k ==> #[trigger] self.slot((self.next_hint() + j) % (MAX_ENDPOINTS as int)) is Some
    }

    /// `claim_endpoint(id, _)` succeeds exactly on a free, in-range slot.
    pub open spec fn can_claim(&self, id: EndpointId) -> bool {
        id.0 < MAX_ENDPOINTS && self.slot(id.0 as int) is None
    }

    /// An empty registry.
    pub fn new() -> (r: EndpointRegistry)
        ensures
            r.wf(),
            r.next_hint() == 0,
            forall|i: int| 0 <= i < MAX_ENDPOINTS ==> r.slot(i) is None,
    {
        let mut endpoints: Vec<Option<Endpoint>> = Vec::new();
        let mut i: usize = 0;
        while i < MAX_ENDPOINTS
            invariant
                i <= MAX_ENDPOINTS,
                endpoints@.len() == i,
                forall|k: int| 0 <= k < i ==> endpoints@[k] is None,
            decreases MAX_ENDPOINTS - i,
        {
            endpoints.push(None);
            i = i + 1;
        }
        EndpointRegistry { endpoints, next_id: 0 }
    }

    /// Creates an endpoint in the first free slot at or after the search
    /// hint (wrapping around), and moves the hint past it. `None` when
    /// every slot is taken.
    pub fn create_endpoint(&mut self, owner: Option<usize>) -> (r: Option<EndpointId>)
        requires
            old(self).wf(),
        ensures
            final(self).wf(),
            match r {
                Some(id) => {
                    &&& old(self).is_first_free(id.0 as int)
                    &&& final(self).slot(id.0 as int) is Some
                    &&& final(self).slot(id.0 as int)->Some_0.is_fresh(id, owner)
                    &&& forall|j: int|
                        0 <= j < MAX_ENDPOINTS && j != id.0 ==> final(self).slot(j) == old(
                            self,
                        ).slot(j)
                    &&& final(self).next_hint() == (id.0 + 1) % (MAX_ENDPOINTS as int)
                },
                None => {
                    &&& forall|j: int| 0 <= j < MAX_ENDPOINTS ==> old(self).slot(j) is Some
                    &&& *final(self) == *old(self)
                },
            },
    {
        let mut i: usize = 0;
        while i < MAX_ENDPOINTS
            invariant
                i <= MAX_ENDPOINTS,
                self.wf(),
                *self == *old(self),
                forall|j: int|
                    0 <= j < i ==> #[trigger] self.endpoints@[(self.next_id + j) % (
                    MAX_ENDPOINTS as int)] is Some,
            decreases MAX_ENDPOINTS - i,
        {
            let idx = (self.next_id + i) % MAX_ENDPOINTS;
            if self.endpoints[idx].is_none() {
                let id = EndpointId(idx);
                self.endpoints[idx] = Some(Endpoint::new(id, owner));
                self.next_id = (idx + 1) % MAX_ENDPOINTS;
                assert((id.0 - old(self).next_id + MAX_ENDPOINTS) % (MAX_ENDPOINTS as int) == i);
                return Some(id);
            }
            i = i + 1;
        }
        assert forall|j: int| 0 <= j < MAX_ENDPOINTS implies old(self).slot(j) is Some by {
            let d = (j - self.next_id + MAX_ENDPOINTS) % (MAX_ENDPOINTS as int);
            assert((self.next_id + d) % (MAX_ENDPOINTS as int) == j);
            assert(self.endpoints@[(self.next_id + d) % (MAX_ENDPOINTS as int)] is Some);
        }
        None
    }

    /// Creates an endpoint with a chosen id; fails when the id is out of
    /// range or already in use.
    pub fn claim_endpoint(&mut self, id: EndpointId, owner: Option<usize>) -> (r: Result<(), ()>)
        requires
            old(self).wf(),
        ensures
            final(self).wf(),
            r is Ok <==> old(self).can_claim(id),
            r is Ok ==> {
                &&& final(self).slot(id.0 as int) is Some
                &&& final(self).slot(id.0 as int)->Some_0.is_fresh(id, owner)
                &&& forall|j: int|
                    0 <= j < MAX_ENDPOINTS && j != id.0 ==> final(self).slot(j) == old(self).slot(j)
                &&& final(self).next_hint() == old(self).next_hint()
            },
            r is Err ==> *final(self) == *old(self),
    {
        if id.0 >= MAX_ENDPOINTS {
            return Err(());
        }
        if self.endpoints[id.0].is_some() {
            return Err(());
        }
        self.endpoints[id.0] = Some(Endpoint::new(id, owner));
        Ok(())
    }

    /// The endpoint with the given id, if it exists.
    pub fn get(&self, id: EndpointId) -> (r: Option<&Endpoint>)
        requires
            self.wf(),
        ensures
            match r {
                Some(e) => id.0 < MAX_ENDPOINTS && self.slot(id.0 as int) == Some(*e) && e.ident() == id,
                None => id.0 >= MAX_ENDPOINTS || self.slot(id.0 as int) is None,
            },
    {
        if id.0 < MAX_ENDPOINTS {
            self.endpoints[id.0].as_ref()
        } else {
            None
        }
    }

    /// Mutable access to the endpoint with the given id, if it exists.
    /// Whatever is done through the reference stays in that slot.
    pub fn get_mut(&mut self, id: EndpointId) -> (r: Option<&mut Endpoint>)
        requires
            old(self).wf(),
        ensures
            match r {
                Some(e) => {
                    &&& id.0 < MAX_ENDPOINTS
                    &&& old(self).slot(id.0 as int) == Some(*e)
                    &&& final(self).slots() == old(self).slots().update(id.0 as int, Some(*final(e)))
                    &&& final(self).next_hint() == old(self).next_hint()
                },
                None => {
                    &&& id.0 >= MAX_ENDPOINTS || old(self).slot(id.0 as int) is None
                    &&& final(self).slots() == old(self).slots()
                    &&& final(self).next_hint() == old(self).next_hint()
                },
            },
    {
        if id.0 < MAX_ENDPOINTS {
            self.endpoints[id.0].as_mut()
        } else {
            None
        }
    }

    /// Removes and returns the endpoint with the given id, if it exists.
    pub fn destroy(&mut self, id: EndpointId) -> (r: Option<Endpoint>)
        requires
            old(self).wf(),
        ensures
            final(self).wf(),
            id.0 < MAX_ENDPOINTS ==> r == old(self).slot(id.0 as int),
            id.0 >= MAX_ENDPOINTS ==> r is None,
            id.0 < MAX_ENDPOINTS ==> final(self).slot(id.0 as int) is None,
            forall|j: int|
                0 <= j < MAX_ENDPOINTS && j != id.0 ==> final(self).slot(j) == old(self).slot(j),
            final(self).next_hint() == old(self).next_hint(),
    {
        if id.0 < MAX_ENDPOINTS {
            self.endpoints[id.0].take()
        } else {
            None
        }
    }

    /// Delivers `msg` into the incoming queue of endpoint `to`.
    pub fn send(&mut self, to: EndpointId, msg: Message) -> (r: Result<(), SendError>)
        requires
            old(self).wf(),
        ensures
            final(self).wf(),
            final(self).next_hint() == old(self).next_hint(),
            forall|j: int|
                0 <= j < MAX_ENDPOINTS && j != to.0 ==> final(self).slot(j) == old(self).slot(j),
            match old(self).inbox_of(to) {
                None => r matches Err(SendError::InvalidEndpoint) && *final(self) == *old(self),
                Some(q) => match spec_enqueue(q, msg) {
                    Some(s) => r is Ok && final(self).inbox_of(to) == Some(s),
                    None => r matches Err(SendError::QueueFull(m)) && m == msg
                        && final(self).same_slots(*old(self)),
                },
            },
            old(self).inbox_of(to) is Some ==> {
                let e0 = old(self).slot(to.0 as int)->Some_0;
                let e1 = final(self).slot(to.0 as int)->Some_0;
                &&& final(self).slot(to.0 as int) is Some
                &&& e1.ident() == e0.ident()
                &&& e1.owner_id() == e0.owner_id()
                &&& e1.outbox() == e0.outbox()
            },
    {
        if to.0 >= MAX_ENDPOINTS || self.endpoints[to.0].is_none() {
            return Err(SendError::InvalidEndpoint);
        }
        let mut endpoint = self.endpoints[to.0].take().unwrap();
        let result = endpoint.deliver(msg);
        self.endpoints[to.0] = Some(endpoint);
        match result {
            Ok(()) => Ok(()),
            Err(m) => Err(SendError::QueueFull(m)),
        }
    }

    /// Takes the oldest message delivered to endpoint `from`, if any.
    pub fn recv(&mut self, from: EndpointId) -> (r: Option<Message>)
        requires
            old(self).wf(),
        ensures
            final(self).wf(),
            final(self).next_hint() == old(self).next_hint(),
            forall|j: int|
                0 <= j < MAX_ENDPOINTS && j != from.0 ==> final(self).slot(j) == old(self).slot(j),
            match old(self).inbox_of(from) {
                None => r is None && *final(self) == *old(self),
                Some(q) => match spec_dequeue(q) {
                    Some((m, s)) => r == Some(m) && final(self).inbox_of(from) == Some(s),
                    None => r is None && final(self).inbox_of(from) == Some(q),
                },
            },
            old(self).inbox_of(from) is Some ==> {
                let e0 = old(self).slot(from.0 as int)->Some_0;
                let e1 = final(self).slot(from.0 as int)->Some_0;
                &&& final(self).slot(from.0 as int) is Some
                &&& e1.ident() == e0.ident()
                &&& e1.owner_id() == e0.owner_id()
                &&& e1.outbox() == e0.outbox()
            },
    {
        if from.0 >= MAX_ENDPOINTS || self.endpoints[from.0].is_none() {
            return None;
        }
        let mut endpoint = self.endpoints[from.0].take().unwrap();
        let result = endpoint.recv();
        self.endpoints[from.0] = Some(endpoint);
        result
    }

    /// Queues `msg` as a reply on the outgoing queue of endpoint `to`.
    pub fn post_reply(&mut self, to: EndpointId, msg: Message) -> (r: Result<(), SendError>)
        requires
            old(self).wf(),
        ensures
            final(self).wf(),
            final(self).next_hint() == old(self).next_hint(),
            forall|j: int|
                0 <= j < MAX_ENDPOINTS && j != to.0 ==> final(self).slot(j) == old(self).slot(j),
            match old(self).outbox_of(to) {
                None => r matches Err(SendError::InvalidEndpoint) && *final(self) == *old(self),
                Some(q) => match spec_enqueue(q, msg) {
                    Some(s) => r is Ok && final(self).outbox_of(to) == Some(s),
                    None => r matches Err(SendError::QueueFull(m)) && m == msg
                        && final(self).same_slots(*old(self)),
                },
            },
            final(self).inbox_of(to) == old(self).inbox_of(to),
            final(self).owner_of(to) == old(self).owner_of(to),
    {
        if to.0 >= MAX_ENDPOINTS || self.endpoints[to.0].is_none() {
            return Err(SendError::InvalidEndpoint);
        }
        let mut endpoint = self.endpoints[to.0].take().unwrap();
        let result = endpoint.send(msg);
        self.endpoints[to.0] = Some(endpoint);
        match result {
            Ok(()) => Ok(()),
            Err(m) => Err(SendError::QueueFull(m)),
        }
    }

    /// Takes the oldest reply queued on endpoint `from`, if any.
    pub fn take_reply(&mut self, from: EndpointId) -> (r: Option<Message>)
        requires
            old(self).wf(),
        ensures
            final(self).wf(),
            final(self).next_hint() == old(self).next_hint(),
            forall|j: int|
                0 <= j < MAX_ENDPOINTS && j != from.0 ==> final(self).slot(j) == old(self).slot(j),
            match old(self).outbox_of(from) {
                None => r is None && *final(self) == *old(self),
                Some(q) => match spec_dequeue(q) {
                    Some((m, s)) => r == Some(m) && final(self).outbox_of(from) == Some(s),
                    None => r is None && final(self).outbox_of(from) == Some(q),
                },
            },
            final(self).inbox_of(from) == old(self).inbox_of(from),
            final(self).owner_of(from) == old(self).owner_of(from),
    {
        if from.0 >= MAX_ENDPOINTS || self.endpoints[from.0].is_none() {
            return None;
        }
        let mut endpoint = self.endpoints[from.0].take().unwrap();
        let result = endpoint.take_sent();
        self.endpoints[from.0] = Some(endpoint);
        result
    }

    /// The owner of endpoint `id`, or `None` when there is no such endpoint
    /// or it has no owner.
    pub fn owner(&self, id: EndpointId) -> (r: Option<usize>)
        requires
            self.wf(),
        ensures
            r == self.owner_of(id),
    {
        match self.get(id) {
            Some(e) => e.owner(),
            None => None,
        }
    }
}

/// Well-known endpoint ids (slots in the registry).
/// The framebuffer server.
pub const FB_SERVER: usize = 11;
/// Well-known endpoint of the real-time-clock server.
pub const RTC_SERVER: usize = 12;
/// Well-known endpoint of the PCI server.
pub const PCI_SERVER: usize = 13;
/// Well-known endpoint of the power server.
pub const POWER_SERVER: usize = 14;
/// Endpoint delivering raw keyboard scancodes.
pub const RAW_KEYBOARD: usize = 15;
/// Endpoint delivering the raw tick counter.
pub const RAW_TICK: usize = 16;

pub const FB_WRITE_CHAR: u32 = 1;
pub const FB_BACKSPACE: u32 = 2;
pub const FB_CLEAR_SCREEN: u32 = 3;
pub const FB_WRITE_STRING: u32 = 4;
pub const RTC_GET_TIME: u32 = 1;
pub const PCI_SCAN_BUSES: u32 = 1;
pub const POWER_OFF: u32 = 1;
pub const KB_GET_SCANCODE: u32 = 1;
pub const TICK_GET: u32 = 1;

/// Syscall number of a one-way send.
pub const SYS_IPC_SEND: u64 = 100;
/// Syscall number of a blocking receive.
pub const SYS_IPC_RECV: u64 = 101;
/// Syscall number of a send followed by a wait for the reply on the same endpoint.
pub const SYS_IPC_CALL: u64 = 102;

/// The kernel's IPC state: the endpoint registry and, per process slot,
/// a send that is waiting for queue space.
pub struct IpcState {
    pub registry: EndpointRegistry,
    pub blocked_sends: [Option<(EndpointId, Message)>; MAX_PROCESSES],
}

impl IpcState {
    /// The registry is well formed.
    pub open spec fn wf(&self) -> bool {
        self.registry.wf()
    }

    /// An empty registry and no blocked sends.
    pub fn new() -> (s: IpcState)
        ensures
            s.wf(),
            s.registry.next_hint() == 0,
            forall|i: int| 0 <= i < MAX_ENDPOINTS ==> s.registry.slot(i) is None,
            forall|i: int| 0 <= i < MAX_PROCESSES ==> s.blocked_sends@[i] is None,
    {
        IpcState { registry: EndpointRegistry::new(), blocked_sends: [None; MAX_PROCESSES] }
    }

    /// Creates an endpoint in the registry (see `EndpointRegistry::create_endpoint`).
    pub fn create_endpoint(&mut self, owner: Option<usize>) -> (r: Option<EndpointId>)
        requires
            old(self).wf(),
        ensures
            final(self).wf(),
            final(self).blocked_sends == old(self).blocked_sends,
            match r {
                Some(id) => {
                    &&& old(self).registry.is_first_free(id.0 as int)
                    &&& final(self).registry.next_hint() == (id.0 + 1) % (MAX_ENDPOINTS as int)
                    &&& final(self).registry.slot(id.0 as int) is Some
                    &&& final(self).registry.slot(id.0 as int)->Some_0.is_fresh(id, owner)
                    &&& forall|j: int|
                        0 <= j < MAX_ENDPOINTS && j != id.0 ==> final(self).registry.slot(j) == old(
                            self,
                        ).registry.slot(j)
                },
                None => {
                    &&& forall|j: int| 0 <= j < MAX_ENDPOINTS ==> old(self).registry.slot(j) is Some
                    &&& final(self).registry.same_slots(old(self).registry)
                },
            },
    {
        self.registry.create_endpoint(owner)
    }

    /// Delivers `msg` to endpoint `to` (see `EndpointRegistry::send`).
    pub fn send(&mut self, to: EndpointId, msg: Message) -> (r: Result<(), SendError>)
        requires
            old(self).wf(),
        ensures
            final(self).wf(),
            final(self).blocked_sends == old(self).blocked_sends,
            forall|j: int|
                0 <= j < MAX_ENDPOINTS && j != to.0 ==> final(self).registry.slot(j) == old(
                    self,
                ).registry.slot(j),
            match old(self).registry.inbox_of(to) {
                None => r matches Err(SendError::InvalidEndpoint) && final(self).registry.same_slots(
                    old(self).registry,
                ),
                Some(q) => match spec_enqueue(q, msg) {
                    Some(s) => r is Ok && final(self).registry.inbox_of(to) == Some(s),
                    None => r matches Err(SendError::QueueFull(m)) && m == msg
                        && final(self).registry.same_slots(old(self).registry),
                },
            },
            final(self).registry.outbox_of(to) == old(self).registry.outbox_of(to),
            final(self).registry.owner_of(to) == old(self).registry.owner_of(to),
    {
        self.registry.send(to, msg)
    }

    /// Takes the oldest message delivered to `from` (see `EndpointRegistry::recv`).
    pub fn recv(&mut self, from: EndpointId) -> (r: Option<Message>)
        requires
            old(self).wf(),
        ensures
            final(self).wf(),
            final(self).blocked_sends == old(self).blocked_sends,
            forall|j: int|
                0 <= j < MAX_ENDPOINTS && j != from.0 ==> final(self).registry.slot(j) == old(
                    self,
                ).registry.slot(j),
            match old(self).registry.inbox_of(from) {
                None => r is None && final(self).registry.same_slots(old(self).registry),
                Some(q) => match spec_dequeue(q) {
                    Some((m, s)) => r == Some(m) && final(self).registry.inbox_of(from) == Some(s),
                    None => r is None && final(self).registry.inbox_of(from) == Some(q),
                },
            },
            final(self).registry.outbox_of(from) == old(self).registry.outbox_of(from),
            final(self).registry.owner_of(from) == old(self).registry.owner_of(from),
    {
        self.registry.recv(from)
    }

    /// Kernel-implemented call services; there are none, so no reply is produced.
    pub fn handle_kernel_call(&self, _to: EndpointId, _send_msg: &Message) -> (r: Option<Message>)
        ensures
            r is None,
    {
        None
    }

    /// Kernel-implemented one-way services; there are none, so nothing is handled.
    pub fn handle_kernel_service(&self, _to: EndpointId, _msg: &Message) -> (b: bool)
        ensures
            !b,
    {
        false
    }
}

/// IPC initialisation hook; the state needs no set-up beyond `IpcState::new`.
pub fn init() {
}

/// A capability naming an endpoint.
#[derive(Debug, Clone, Copy, PartialEq, Eq, Structural)]
pub struct Capability(pub EndpointId);

impl Capability {
    /// The capability that names no endpoint.
    pub fn null() -> (c: Capability)
        ensures
            c.0.0 == usize::MAX,
    {
        Capability(EndpointId(usize::MAX))
    }

    /// Whether this is the null capability.
    pub fn is_null(&self) -> (b: bool)
        ensures
            b == (self.0.0 == usize::MAX),
    {
        self.0.0 == usize::MAX
    }
}

/// Queue contents after appending each of `items` in turn, or `None` if
/// some append finds the queue full.
pub open spec fn enqueue_all(s: Seq<Message>, items: Seq<Message>) -> Option<Seq<Message>>
    decreases items.len(),
{
    if items.len() == 0 {
        Some(s)
    } else {
        match spec_enqueue(s, items[0]) {
            Some(t) => enqueue_all(t, items.drop_first()),
            None => None,
        }
    }
}

/// The first `n` messages taken from the front of `s`, in the order they are
/// taken, or `None` if the queue runs dry first.
pub open spec fn dequeue_n(s: Seq<Message>, n: nat) -> Option<Seq<Message>>
    decreases n,
{
    if n == 0 {
        Some(Seq::empty())
    } else {
        match spec_dequeue(s) {
            Some((m, t)) => match dequeue_n(t, (n - 1) as nat) {
                Some(rest) => Some(seq![m] + rest),
                None => None,
            },
            None => None,
        }
    }
}

proof fn lemma_enqueue_all(s: Seq<Message>, items: Seq<Message>)
    requires
        s.len() + items.len() <= MAX_PENDING_MESSAGES,
    ensures
        enqueue_all(s, items) == Some(s + items),
    decreases items.len(),
{
    if items.len() > 0 {
        lemma_enqueue_all(s.push(items[0]), items.drop_first());
        assert(s.push(items[0]) + items.drop_first() =~= s + items);
    } else {
        assert(s + items =~= s);
    }
}

proof fn lemma_dequeue_n(s: Seq<Message>, n: nat)
    requires
        n <= s.len(),
    ensures
        dequeue_n(s, n) == Some(s.take(n as int)),
    decreases n,
{
    if n > 0 {
        lemma_dequeue_n(s.drop_first(), (n - 1) as nat);
        assert(seq![s[0]] + s.drop_first().take(n - 1) =~= s.take(n as int));
    } else {
        assert(s.take(0) =~= Seq::<Message>::empty());
    }
}

/// FIFO order: up to a full queue's worth of messages sent one after the
/// other into an empty queue are received back in exactly the order in
/// which they were sent.
pub proof fn law_queue_fifo(items: Seq<Message>)
    requires
        items.len() <= MAX_PENDING_MESSAGES,
    ensures
        enqueue_all(Seq::empty(), items) == Some(items),
        dequeue_n(items, items.len()) == Some(items),
{
    lemma_enqueue_all(Seq::empty(), items);
    assert(Seq::<Message>::empty() + items =~= items);
    lemma_dequeue_n(items, items.len());
    assert(items.take(items.len() as int) =~= items);
}

/// A queue never holds more than `MAX_PENDING_MESSAGES` messages.
pub proof fn law_queue_bounded(q: MessageQueue)
    requires
        q.wf(),
    ensures
        q@.len() <= MAX_PENDING_MESSAGES,
{
}

/// A message sent to an endpoint whose queue has room is received after the
/// messages already waiting there; on an empty queue the very next receive
/// returns it and leaves the queue empty again.
pub proof fn law_send_then_recv(q: Seq<Message>, m: Message)
    requires
        q.len() < MAX_PENDING_MESSAGES,
    ensures
        spec_enqueue(q, m) is Some,
        spec_dequeue(spec_enqueue(q, m)->Some_0) is Some,
        q.len() == 0 ==> spec_dequeue(spec_enqueue(q, m)->Some_0) == Some((m, Seq::<Message>::empty())),
        q.len() > 0 ==> spec_dequeue(spec_enqueue(q, m)->Some_0)->Some_0.0 == q[0],
{
    if q.len() == 0 {
        assert(q.push(m).drop_first() =~= Seq::<Message>::empty());
    }
}

/// Replaying `ops` on an empty queue, one operation after the other
/// (`Some(m)`: send `m`; `None`: receive): the queue's contents at the end,
/// the messages whose send was accepted, and the messages received, each in
/// order. A send to a full queue and a receive from an empty one change
/// nothing.
pub open spec fn replay(ops: Seq<Option<Message>>) -> (Seq<Message>, Seq<Message>, Seq<Message>)
    decreases ops.len(),
{
    if ops.len() == 0 {
        (Seq::empty(), Seq::empty(), Seq::empty())
    } else {
        let (q, accepted, received) = replay(ops.drop_last());
        match ops.last() {
            Some(m) => match spec_enqueue(q, m) {
                Some(s) => (s, accepted.push(m), received),
                None => (q, accepted, received),
            },
            None => match spec_dequeue(q) {
                Some((m, s)) => (s, accepted, received.push(m)),
                None => (q, accepted, received),
            },
        }
    }
}

/// Whatever sends and receives a queue (or an endpoint's incoming queue)
/// has seen since it was created empty: the messages received are the
/// accepted ones in the order they were sent, a prefix of them; the queue
/// holds exactly the accepted messages not yet received, in order, at most
/// `MAX_PENDING_MESSAGES` of them; its length is the number of accepted
/// sends minus the number of successful receives, so it has a message
/// waiting exactly when more were accepted than received, and the next
/// receive returns the oldest accepted message not yet received.
pub proof fn law_queue_replay(ops: Seq<Option<Message>>)
    ensures
        ({
            let (q, accepted, received) = replay(ops);
            &&& q.len() <= MAX_PENDING_MESSAGES
            &&& received.len() <= accepted.len()
            &&& received == accepted.take(received.len() as int)
            &&& q == accepted.skip(received.len() as int)
            &&& q.len() == accepted.len() - received.len()
            &&& (q.len() > 0 <==> accepted.len() > received.len())
            &&& q.len() > 0 ==> spec_dequeue(q) == Some(
                (accepted[received.len() as int], accepted.skip(received.len() + 1int)),
            )
        }),
    decreases ops.len(),
{
    if ops.len() > 0 {
        law_queue_replay(ops.drop_last());
        let (q0, a0, r0) = replay(ops.drop_last());
        let (q, a, r) = replay(ops);
        match ops.last() {
            Some(m) => {
                if q0.len() < MAX_PENDING_MESSAGES {
                    assert(a0.push(m).take(r0.len() as int) =~= a0.take(r0.len() as int));
                    assert(q0.push(m) =~= a0.push(m).skip(r0.len() as int));
                }
            },
            None => {
                if q0.len() > 0 {
                    assert(q0[0] == a0[r0.len() as int]);
                    assert(r0.push(q0[0]) =~= a0.take(r0.len() + 1int));
                    assert(q0.drop_first() =~= a0.skip(r0.len() + 1int));
                }
            },
        }
        if q.len() > 0 {
            assert(q[0] == a[r.len() as int]);
            assert(q.drop_first() =~= a.skip(r.len() + 1int));
        }
    } else {
        let (q, a, r) = replay(ops);
        assert(a.take(0) =~= r);
        assert(a.skip(0) =~= q);
    }
}

/// The queue after one operation (`Some(m)`: send `m`; `None`: receive),
/// as `MessageQueue::send` and `MessageQueue::recv` (and, for an endpoint's
/// incoming queue, `Endpoint::deliver` and `Endpoint::recv`) leave it.
pub open spec fn queue_after(q: Seq<Message>, op: Option<Message>) -> Seq<Message> {
    match op {
        Some(m) => match spec_enqueue(q, m) {
            Some(s) => s,
            None => q,
        },
        None => match spec_dequeue(q) {
            Some((_, s)) => s,
            None => q,
        },
    }
}

proof fn lemma_views_follow_replay(views: Seq<Seq<Message>>, ops: Seq<Option<Message>>, i: int)
    requires
        views.len() == ops.len() + 1,
        views[0] == Seq::<Message>::empty(),
        forall|j: int| 0 <= j < ops.len() ==> #[trigger] views[j + 1] == queue_after(views[j], ops[j]),
        0 <= i < views.len(),
    ensures
        views[i] == replay(ops.take(i)).0,
    decreases i,
{
    if i > 0 {
        lemma_views_follow_replay(views, ops, i - 1);
        assert(ops.take(i).drop_last() =~= ops.take(i - 1));
        assert(ops.take(i).last() == ops[i - 1]);
        let j = i - 1;
        assert(views[j + 1] == queue_after(views[j], ops[j]));
    } else {
        assert(ops.take(0) =~= Seq::<Option<Message>>::empty());
    }
}

/// A queue created empty and then used call after call, each call leaving
/// the queue as `send` or `recv` does, holds at every point exactly what
/// replaying the operations made so far gives: so `law_queue_replay`
/// describes it after any sequence of calls (the same holds of an
/// endpoint's incoming queue under `deliver` and `recv`, the other calls
/// leaving that queue alone).
pub proof fn law_queue_calls_follow_replay(views: Seq<Seq<Message>>, ops: Seq<Option<Message>>)
    requires
        views.len() == ops.len() + 1,
        views[0] == Seq::<Message>::empty(),
        forall|j: int| 0 <= j < ops.len() ==> #[trigger] views[j + 1] == queue_after(views[j], ops[j]),
    ensures
        forall|i: int| 0 <= i < views.len() ==> #[trigger] views[i] == replay(ops.take(i)).0,
        views.last() == replay(ops).0,
{
    assert forall|i: int| 0 <= i < views.len() implies #[trigger] views[i] == replay(ops.take(i)).0 by {
        lemma_views_follow_replay(views, ops, i);
    }
    assert(ops.take(ops.len() as int) =~= ops);
    assert(views.last() == views[ops.len() as int]);
}

/// An id can be claimed only while its slot is free: once a slot holds an
/// endpoint a further claim of that id fails, and once the endpoint is
/// destroyed the id can be claimed again.
pub proof fn law_claim_exclusive(reg: EndpointRegistry, id: EndpointId)
    requires
        id.0 < MAX_ENDPOINTS,
    ensures
        reg.slot(id.0 as int) is Some ==> !reg.can_claim(id),
        reg.slot(id.0 as int) is None ==> reg.can_claim(id),
{
}

} // verus!
