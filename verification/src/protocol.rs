use vstd::prelude::*;
use vstd::bytes::*;
use vstd::utf8::*;

use crate::ipc::{padded_payload, Message, IPC_MSG_DATA_SIZE};

verus! {

/// Tag of a service registration sent to the service manager.
pub const REGISTER_SERVICE: u32 = 1;
/// Tag of a service lookup and of its reply.
pub const LOOKUP_SERVICE: u32 = 2;
/// Endpoint of the service manager.
pub const SERVICE_MANAGER: usize = 1;
/// Number of services the manager records.
pub const MAX_SERVICES: usize = 32;
/// Tag of a keyboard poll request and its reply.
pub const KB_GET_CHAR_POLL: u32 = 3;
/// Tag of a blocking keyboard request.
pub const KB_GET_CHAR: u32 = 2;
/// Tag of the PCI scan's "no more devices" reply.
pub const PCI_SCAN_DONE: u32 = 2;
/// Character code of backspace in keyboard replies.
pub const KEY_BACKSPACE: u32 = 8;
/// Character code meaning "no key pressed" in keyboard replies.
pub const KEY_NONE: u32 = 0xFFFF_FFFF;

/// The 64-bit little-endian value in payload bytes `at..at + 8`.
pub open spec fn payload_u64(m: Message, at: int) -> u64 {
    spec_u64_from_le_bytes(m.data@.subrange(at, at + 8))
}

/// Reads the little-endian `u64` at payload offset `at`.
pub fn read_u64(m: &Message, at: usize) -> (v: u64)
    requires
        at + 8 <= IPC_MSG_DATA_SIZE,
    ensures
        v == payload_u64(*m, at as int),
{
    let bytes: &[u8] = m.data.as_slice();
    u64_from_le_bytes(&bytes[at..at + 8])
}

/// Writes `v` little-endian at payload offset `at`, leaving the rest alone.
pub fn write_u64(m: &mut Message, at: usize, v: u64)
    requires
        at + 8 <= IPC_MSG_DATA_SIZE,
    ensures
        final(m).tag == old(m).tag,
        final(m).data@ == old(m).data@.subrange(0, at as int) + spec_u64_to_le_bytes(v)
            + old(m).data@.subrange(at + 8, IPC_MSG_DATA_SIZE as int),
        payload_u64(*final(m), at as int) == v,
{
    let bytes = u64_to_le_bytes(v);
    let mut i: usize = 0;
    while i < 8
        invariant
            at + 8 <= IPC_MSG_DATA_SIZE,
            bytes@.len() == 8,
            i <= 8,
            m.tag == old(m).tag,
            forall|k: int| 0 <= k < at ==> m.data@[k] == old(m).data@[k],
            forall|k: int| at + 8 <= k < IPC_MSG_DATA_SIZE ==> m.data@[k] == old(m).data@[k],
            forall|k: int| 0 <= k < i ==> m.data@[at + k] == #[trigger] bytes@[k],
            forall|k: int| at + i <= k < at + 8 ==> #[trigger] m.data@[k] == old(m).data@[k],
        decreases 8 - i,
    {
        m.data[at + i] = bytes[i];
        i = i + 1;
    }
    proof {
        assert(m.data@ =~= old(m).data@.subrange(0, at as int) + spec_u64_to_le_bytes(v)
            + old(m).data@.subrange(at + 8, IPC_MSG_DATA_SIZE as int));
        assert(m.data@.subrange(at as int, at + 8) =~= spec_u64_to_le_bytes(v));
        lemma_auto_spec_u64_to_from_le_bytes();
    }
}

/// The reply endpoint a server finds in the first eight payload bytes of a request.
pub fn reply_endpoint(m: &Message) -> (ep: usize)
    ensures
        ep == payload_u64(*m, 0) as usize,
{
    read_u64(m, 0) as usize
}

/// A request of kind `tag` carrying the requester's reply endpoint in its
/// first eight payload bytes.
pub fn request_with_reply(tag: u32, reply_to: usize) -> (m: Message)
    ensures
        m.tag == tag,
        payload_u64(m, 0) == reply_to as u64,
        forall|k: int| 8 <= k < IPC_MSG_DATA_SIZE ==> m.data@[k] == 0,
{
    message_with_u64(tag, reply_to as u64)
}

/// A message of kind `tag` whose payload is `v` (little-endian) followed by zeros.
pub fn message_with_u64(tag: u32, v: u64) -> (m: Message)
    ensures
        m.tag == tag,
        payload_u64(m, 0) == v,
        forall|k: int| 8 <= k < IPC_MSG_DATA_SIZE ==> m.data@[k] == 0,
{
    let mut m = Message::new(tag, &[]);
    let ghost m0 = m;
    write_u64(&mut m, 0, v);
    proof {
        lemma_auto_spec_u64_to_from_le_bytes();
        assert forall|k: int| 8 <= k < IPC_MSG_DATA_SIZE implies m.data@[k] == 0 by {
            assert(m.data@[k] == m0.data@.subrange(8, IPC_MSG_DATA_SIZE as int)[k - 8]);
            assert(padded_payload(Seq::<u8>::empty())[k] == 0);
        }
    }
    m
}

/// A registered service: an eight-byte name and its endpoint.
#[derive(Debug, Clone, Copy)]
pub struct Service {
    pub name: [u8; 8],
    pub endpoint: usize,
}

/// The endpoint recorded for `name` in `services`: that of the earliest
/// registration under the name, or `usize::MAX` when there is none.
pub open spec fn spec_lookup(services: Seq<(Seq<u8>, usize)>, name: Seq<u8>) -> usize
    decreases services.len(),
{
    if services.len() == 0 {
        usize::MAX
    } else if services[0].0 == name {
        services[0].1
    } else {
        spec_lookup(services.drop_first(), name)
    }
}

/// The service manager's table, in registration order.
pub struct ServiceRegistry {
    services: Vec<Service>,
}

impl View for ServiceRegistry {
    type V = Seq<(Seq<u8>, usize)>;

    closed spec fn view(&self) -> Seq<(Seq<u8>, usize)> {
        Seq::new(
            self.services@.len(),
            |i: int| (self.services@[i].name@, self.services@[i].endpoint),
        )
    }
}

fn names_equal(a: &[u8; 8], b: &[u8; 8]) -> (r: bool)
    ensures
        r == (a@ == b@),
{
    let mut i: usize = 0;
    while i < 8
        invariant
            i <= 8,
            forall|k: int| 0 <= k < i ==> a@[k] == b@[k],
        decreases 8 - i,
    {
        if a[i] != b[i] {
            return false;
        }
        i = i + 1;
    }
    assert(a@ =~= b@);
    true
}

impl ServiceRegistry {
    /// At most `MAX_SERVICES` entries.
    pub closed spec fn wf(&self) -> bool {
        self.services@.len() <= MAX_SERVICES
    }

    /// An empty table.
    pub fn new() -> (r: ServiceRegistry)
        ensures
            r.wf(),
            r@ == Seq::<(Seq<u8>, usize)>::empty(),
    {
        let r = ServiceRegistry { services: Vec::new() };
        assert(r@ =~= Seq::<(Seq<u8>, usize)>::empty());
        r
    }

    /// Records `name` at `endpoint` when there is room; returns whether it did.
    pub fn register(&mut self, name: [u8; 8], endpoint: usize) -> (ok: bool)
        requires
            old(self).wf(),
        ensures
            final(self).wf(),
            ok == (old(self)@.len() < MAX_SERVICES),
            ok ==> final(self)@ == old(self)@.push((name@, endpoint)),
            !ok ==> final(self)@ == old(self)@,
    {
        if self.services.len() < MAX_SERVICES {
            let ghost before = self@;
            self.services.push(Service { name, endpoint });
            assert(self@ =~= before.push((name@, endpoint)));
            true
        } else {
            false
        }
    }

    /// The endpoint of the earliest service registered as `name`, or
    /// `usize::MAX` when there is none.
    pub fn lookup(&self, name: &[u8; 8]) -> (ep: usize)
        requires
            self.wf(),
        ensures
            ep == spec_lookup(self@, name@),
    {
        let mut i: usize = 0;
        assert(self@.subrange(0, self@.len() as int) =~= self@);
        while i < self.services.len()
            invariant
                i <= self.services@.len(),
                spec_lookup(self@.subrange(i as int, self@.len() as int), name@) == spec_lookup(
                    self@,
                    name@,
                ),
            decreases self.services@.len() - i,
        {
            let ghost rest = self@.subrange(i as int, self@.len() as int);
            assert(rest[0] == self@[i as int]);
            if names_equal(&self.services[i].name, name) {
                return self.services[i].endpoint;
            }
            assert(rest.drop_first() =~= self@.subrange(i + 1, self@.len() as int));
            i = i + 1;
        }
        usize::MAX
    }

    /// Serves one request to the service manager: a registration (tag 1)
    /// records the name in payload bytes 0..8 at the endpoint in bytes
    /// 8..16 and produces no reply; a lookup (tag 2) produces, for the reply
    /// endpoint in bytes 8..16, a reply carrying the endpoint found. Other
    /// tags are ignored.
    pub fn handle(&mut self, msg: &Message) -> (r: Option<(usize, Message)>)
        requires
            old(self).wf(),
        ensures
            final(self).wf(),
            msg.tag == REGISTER_SERVICE ==> {
                &&& r is None
                &&& old(self)@.len() < MAX_SERVICES ==> final(self)@ == old(self)@.push(
                    (msg.data@.subrange(0, 8), payload_u64(*msg, 8) as usize),
                )
                &&& old(self)@.len() >= MAX_SERVICES ==> final(self)@ == old(self)@
            },
            msg.tag == LOOKUP_SERVICE ==> {
                &&& final(self)@ == old(self)@
                &&& r matches Some((to, reply)) && to == payload_u64(*msg, 8) as usize
                    && is_lookup_reply(reply, spec_lookup(old(self)@, msg.data@.subrange(0, 8)))
            },
            msg.tag != REGISTER_SERVICE && msg.tag != LOOKUP_SERVICE ==> r is None && final(self)@
                == old(self)@,
            final(self)@ == table_after(old(self)@, *msg),
    {
        if msg.tag == REGISTER_SERVICE {
            let endpoint = read_u64(msg, 8) as usize;
            let name = name_field(msg);
            self.register(name, endpoint);
            None
        } else if msg.tag == LOOKUP_SERVICE {
            let name = name_field(msg);
            let reply_to = read_u64(msg, 8) as usize;
            let found = self.lookup(&name);
            Some((reply_to, lookup_reply(found)))
        } else {
            None
        }
    }
}

/// A registration is found by a later lookup of its name, unless an earlier
/// registration under the same name wins; lookups of other names are
/// unaffected.
pub proof fn law_register_then_lookup(reg: Seq<(Seq<u8>, usize)>, name: Seq<u8>, ep: usize, other: Seq<u8>)
    ensures
        (forall|i: int| 0 <= i < reg.len() ==> (#[trigger] reg[i]).0 != name) ==> spec_lookup(
            reg.push((name, ep)),
            name,
        ) == ep,
        (exists|i: int| 0 <= i < reg.len() && (#[trigger] reg[i]).0 == name) ==> spec_lookup(
            reg.push((name, ep)),
            name,
        ) == spec_lookup(reg, name),
        other != name ==> spec_lookup(reg.push((name, ep)), other) == spec_lookup(reg, other),
    decreases reg.len(),
{
    if reg.len() > 0 {
        assert(reg.push((name, ep)).drop_first() =~= reg.drop_first().push((name, ep)));
        law_register_then_lookup(reg.drop_first(), name, ep, other);
        if exists|i: int| 0 <= i < reg.len() && (#[trigger] reg[i]).0 == name {
            let i = choose|i: int| 0 <= i < reg.len() && (#[trigger] reg[i]).0 == name;
            if i > 0 {
                assert(reg.drop_first()[i - 1].0 == name);
            }
        }
        if forall|i: int| 0 <= i < reg.len() ==> (#[trigger] reg[i]).0 != name {
            assert forall|i: int| 0 <= i < reg.drop_first().len() implies (
            #[trigger] reg.drop_first()[i]).0 != name by {
                assert(reg.drop_first()[i] == reg[i + 1]);
            }
        }
    } else {
        assert(reg.push((name, ep)).drop_first() =~= reg);
    }
}

/// The entry a registration message asks for: the name in payload bytes
/// 0..8 and the endpoint in bytes 8..16.
pub open spec fn register_entry(m: Message) -> (Seq<u8>, usize) {
    (m.data@.subrange(0, 8), payload_u64(m, 8) as usize)
}

/// The service table after `handle` has served `m`: a registration is
/// recorded while there is room; nothing else changes the table.
pub open spec fn table_after(t: Seq<(Seq<u8>, usize)>, m: Message) -> Seq<(Seq<u8>, usize)> {
    if m.tag == REGISTER_SERVICE && t.len() < MAX_SERVICES {
        t.push(register_entry(m))
    } else {
        t
    }
}

/// The entries of the registration messages among `msgs`, in order.
pub open spec fn registrations(msgs: Seq<Message>) -> Seq<(Seq<u8>, usize)>
    decreases msgs.len(),
{
    if msgs.len() == 0 {
        Seq::empty()
    } else if msgs.last().tag == REGISTER_SERVICE {
        registrations(msgs.drop_last()).push(register_entry(msgs.last()))
    } else {
        registrations(msgs.drop_last())
    }
}

/// The first `MAX_SERVICES` entries of `r` (all of them when there are fewer).
pub open spec fn first_services(r: Seq<(Seq<u8>, usize)>) -> Seq<(Seq<u8>, usize)> {
    if r.len() <= MAX_SERVICES {
        r
    } else {
        r.take(MAX_SERVICES as int)
    }
}

proof fn lemma_tables_follow_registrations(tables: Seq<Seq<(Seq<u8>, usize)>>, msgs: Seq<Message>, i: int)
    requires
        tables.len() == msgs.len() + 1,
        tables[0] == Seq::<(Seq<u8>, usize)>::empty(),
        forall|j: int| 0 <= j < msgs.len() ==> #[trigger] tables[j + 1] == table_after(tables[j], msgs[j]),
        0 <= i < tables.len(),
    ensures
        tables[i] == first_services(registrations(msgs.take(i))),
    decreases i,
{
    if i == 0 {
        assert(msgs.take(0) =~= Seq::<Message>::empty());
    } else {
        let j = i - 1;
        lemma_tables_follow_registrations(tables, msgs, j);
        assert(tables[j + 1] == table_after(tables[j], msgs[j]));
        assert(msgs.take(i).drop_last() =~= msgs.take(j));
        assert(msgs.take(i).last() == msgs[j]);
        let r = registrations(msgs.take(j));
        if msgs[j].tag == REGISTER_SERVICE && r.len() >= MAX_SERVICES {
            assert(r.push(register_entry(msgs[j])).take(MAX_SERVICES as int) =~= r.take(
                MAX_SERVICES as int,
            ));
        }
    }
}

/// What the service manager knows after serving any sequence of messages,
/// each served by `handle` (registrations recorded while there is room,
/// lookups and other tags leaving the table alone): its table is the first
/// `MAX_SERVICES` registrations, in the order they came; later ones are
/// dropped. A lookup then answers the endpoint of the earliest of those
/// registered under the name (`spec_lookup`), or "unknown".
pub proof fn law_service_manager_history(tables: Seq<Seq<(Seq<u8>, usize)>>, msgs: Seq<Message>)
    requires
        tables.len() == msgs.len() + 1,
        tables[0] == Seq::<(Seq<u8>, usize)>::empty(),
        forall|j: int| 0 <= j < msgs.len() ==> #[trigger] tables[j + 1] == table_after(tables[j], msgs[j]),
    ensures
        forall|i: int|
            0 <= i < tables.len() ==> #[trigger] tables[i] == first_services(registrations(msgs.take(i))),
        tables.last() == first_services(registrations(msgs)),
        tables.last().len() <= MAX_SERVICES,
{
    assert forall|i: int| 0 <= i < tables.len() implies #[trigger] tables[i] == first_services(
        registrations(msgs.take(i)),
    ) by {
        lemma_tables_follow_registrations(tables, msgs, i);
    }
    assert(msgs.take(msgs.len() as int) =~= msgs);
    assert(tables.last() == tables[msgs.len() as int]);
}

/// The service manager's answer to a lookup decodes to the endpoint found,
/// or to "unknown" when the manager found none.
pub proof fn law_lookup_reply_decodes(m: Message, found: usize)
    requires
        is_lookup_reply(m, found),
    ensures
        m.tag == LOOKUP_SERVICE,
        payload_u64(m, 0) as usize == found,
{
}

/// The eight name bytes at the start of a payload.
fn name_field(msg: &Message) -> (name: [u8; 8])
    ensures
        name@ == msg.data@.subrange(0, 8),
{
    let mut name = [0u8; 8];
    let mut i: usize = 0;
    while i < 8
        invariant
            i <= 8,
            forall|k: int| 0 <= k < i ==> name@[k] == msg.data@[k],
        decreases 8 - i,
    {
        name[i] = msg.data[i];
        i = i + 1;
    }
    assert(name@ =~= msg.data@.subrange(0, 8));
    name
}

/// `m` is a lookup reply carrying endpoint `ep`.
pub open spec fn is_lookup_reply(m: Message, ep: usize) -> bool {
    &&& m.tag == LOOKUP_SERVICE
    &&& payload_u64(m, 0) == ep as u64
    &&& forall|k: int| 8 <= k < IPC_MSG_DATA_SIZE ==> m.data@[k] == 0
}

/// The service manager's answer to a lookup.
pub fn lookup_reply(found: usize) -> (m: Message)
    ensures
        is_lookup_reply(m, found),
{
    request_with_reply(LOOKUP_SERVICE, found)
}

/// A lookup of the service `name` (its first eight bytes, zero-padded),
/// asking for the answer at `reply_endpoint`.
pub fn lookup_request(name: &[u8], reply_endpoint: usize) -> (m: Message)
    ensures
        m.tag == LOOKUP_SERVICE,
        m.data@.subrange(0, 8) == padded_payload(name@).subrange(0, 8),
        payload_u64(m, 8) == reply_endpoint as u64,
{
    let mut m = Message::empty();
    m.tag = LOOKUP_SERVICE;
    let copy_len = if name.len() < 8 { name.len() } else { 8 };
    let mut i: usize = 0;
    while i < copy_len
        invariant
            copy_len <= 8,
            copy_len <= name@.len(),
            copy_len == name@.len() || copy_len == 8,
            i <= copy_len,
            m.tag == LOOKUP_SERVICE,
            forall|k: int| 0 <= k < i ==> m.data@[k] == name@[k],
            forall|k: int| i <= k < IPC_MSG_DATA_SIZE ==> m.data@[k] == 0,
        decreases copy_len - i,
    {
        m.data[i] = name[i];
        i = i + 1;
    }
    let ghost m0 = m;
    write_u64(&mut m, 8, reply_endpoint as u64);
    assert(m.data@.subrange(0, 8) =~= padded_payload(name@).subrange(0, 8)) by {
        assert forall|k: int| 0 <= k < 8 implies m.data@[k] == padded_payload(name@)[k] by {
            assert(m.data@[k] == m0.data@[k]);
        }
    }
    m
}

/// A registration of the service `name` at `endpoint`.
pub fn register_request(name: [u8; 8], endpoint: usize) -> (m: Message)
    ensures
        m.tag == REGISTER_SERVICE,
        m.data@.subrange(0, 8) == name@,
        payload_u64(m, 8) == endpoint as u64,
{
    let mut m = Message::empty();
    m.tag = REGISTER_SERVICE;
    let mut i: usize = 0;
    while i < 8
        invariant
            i <= 8,
            m.tag == REGISTER_SERVICE,
            forall|k: int| 0 <= k < i ==> m.data@[k] == name@[k],
        decreases 8 - i,
    {
        m.data[i] = name[i];
        i = i + 1;
    }
    let ghost m0 = m;
    write_u64(&mut m, 8, endpoint as u64);
    assert(m.data@.subrange(0, 8) =~= name@) by {
        assert forall|k: int| 0 <= k < 8 implies m.data@[k] == name@[k] by {
            assert(m.data@[k] == m0.data@[k]);
        }
    }
    m
}

/// The endpoint a lookup reply names: `None` for a reply of another kind
/// or one saying the service is unknown.
pub fn decode_lookup_reply(resp: &Message) -> (r: Option<usize>)
    ensures
        r == (if resp.tag == LOOKUP_SERVICE && payload_u64(*resp, 0) as usize != usize::MAX {
            Some(payload_u64(*resp, 0) as usize)
        } else {
            None
        }),
{
    if resp.tag == LOOKUP_SERVICE {
        let ep = read_u64(resp, 0) as usize;
        if ep != usize::MAX {
            return Some(ep);
        }
    }
    None
}

/// Tick count carried by a reply of the tick server: the little-endian
/// value in its first eight bytes, or 0 for a reply of another kind.
pub fn decode_ticks(resp: &Message) -> (t: u64)
    ensures
        t == (if resp.tag == crate::ipc::TICK_GET {
            payload_u64(*resp, 0)
        } else {
            0
        }),
{
    if resp.tag == crate::ipc::TICK_GET {
        read_u64(resp, 0)
    } else {
        0
    }
}

/// The tick server's reply: the raw tick source's first eight payload
/// bytes under the tick tag.
pub fn relay_ticks(raw: &Message) -> (m: Message)
    ensures
        m.tag == crate::ipc::TICK_GET,
        payload_u64(m, 0) == payload_u64(*raw, 0),
        forall|k: int| 8 <= k < IPC_MSG_DATA_SIZE ==> m.data@[k] == 0,
{
    let ticks = read_u64(raw, 0);
    message_with_u64(crate::ipc::TICK_GET, ticks)
}

/// The 32-bit little-endian value in payload bytes `at..at + 4`.
pub open spec fn payload_u32(m: Message, at: int) -> u32 {
    spec_u32_from_le_bytes(m.data@.subrange(at, at + 4))
}

/// A key as the keyboard server sees it after decoding.
#[derive(Debug, Clone, Copy, PartialEq, Eq)]
pub enum KeyInput {
    /// A key that produced a character.
    Unicode(char),
    /// The backspace key, reported without a character.
    Backspace,
    /// Any other key without a character.
    OtherRaw,
}

/// The character code the keyboard server sends for a decoded key:
/// the character's scalar value, 8 for backspace, nothing for other keys.
pub fn key_code(key: KeyInput) -> (r: Option<u32>)
    ensures
        r == match key {
            KeyInput::Unicode(c) => Some(c as u32),
            KeyInput::Backspace => Some(KEY_BACKSPACE),
            KeyInput::OtherRaw => None::<u32>,
        },
{
    match key {
        KeyInput::Unicode(c) => Some(c as u32),
        KeyInput::Backspace => Some(KEY_BACKSPACE),
        KeyInput::OtherRaw => None,
    }
}

/// A keyboard reply under `tag` carrying `code` little-endian in its first
/// four payload bytes.
pub fn key_reply(tag: u32, code: u32) -> (m: Message)
    ensures
        m.tag == tag,
        payload_u32(m, 0) == code,
        forall|k: int| 4 <= k < IPC_MSG_DATA_SIZE ==> m.data@[k] == 0,
{
    let mut m = Message::empty();
    m.tag = tag;
    let bytes = u32_to_le_bytes(code);
    proof {
        lemma_auto_spec_u32_to_from_le_bytes();
    }
    let mut i: usize = 0;
    while i < 4
        invariant
            i <= 4,
            bytes@.len() == 4,
            m.tag == tag,
            forall|k: int| 0 <= k < i ==> m.data@[k] == #[trigger] bytes@[k],
            forall|k: int| 4 <= k < IPC_MSG_DATA_SIZE ==> m.data@[k] == 0,
        decreases 4 - i,
    {
        m.data[i] = bytes[i];
        i = i + 1;
    }
    assert(m.data@.subrange(0, 4) =~= bytes@);
    m
}

/// Converts a scalar value to a `char` with `char::from_u32`, which the
/// standard library documents as returning the character exactly when the
/// value is a Unicode scalar value.
#[verifier::external_body]
fn char_from_u32(v: u32) -> (r: Option<char>)
    ensures
        r is Some <==> is_scalar(v),
        r matches Some(c) ==> c as u32 == v,
{
    char::from_u32(v)
}

/// A key the keyboard server sends as a character reply reaches the client
/// as the same character: its code is a scalar value, is not the no-key
/// code, and no other character has it.
pub proof fn law_key_reply_roundtrip(c: char, c2: char)
    ensures
        c as u32 != KEY_NONE,
        is_scalar(c as u32),
        c2 as u32 == c as u32 ==> c2 == c,
{
    char_is_scalar(c);
}

/// The character a keyboard poll reply carries: none for a reply of
/// another kind or the "no key" code, backspace for code 8, otherwise the
/// character with that scalar value (none if it is not one).
pub fn decode_key_reply(resp: &Message) -> (r: Option<char>)
    ensures
        resp.tag != KB_GET_CHAR_POLL ==> r is None,
        resp.tag == KB_GET_CHAR_POLL ==> {
            let code = payload_u32(*resp, 0);
            &&& code == KEY_NONE ==> r is None
            &&& code != KEY_NONE ==> (r is Some <==> is_scalar(code))
            &&& r matches Some(c) ==> c as u32 == code
        },
{
    if resp.tag == KB_GET_CHAR_POLL {
        let bytes: &[u8] = resp.data.as_slice();
        let code = u32_from_le_bytes(&bytes[0..4]);
        if code == KEY_NONE {
            return None;
        }
        if code == KEY_BACKSPACE {
            return Some('\x08');
        }
        return char_from_u32(code);
    }
    None
}

/// The port writes the power server makes on a power-off request: the
/// sleep command to the ACPI control ports of the two usual QEMU machines,
/// then a write to the ISA debug-exit port; nothing for other requests.
pub fn power_off_writes(m: &Message) -> (w: Vec<(u16, u16)>)
    ensures
        m.tag == crate::ipc::POWER_OFF ==> w@ == seq![(0xB004u16, 0x2000u16), (0x604u16, 0x2000u16), (0x501u16, 0u16)],
        m.tag != crate::ipc::POWER_OFF ==> w@ == Seq::<(u16, u16)>::empty(),
{
    let mut w: Vec<(u16, u16)> = Vec::new();
    if m.tag == crate::ipc::POWER_OFF {
        w.push((0xB004, 0x2000));
        w.push((0x604, 0x2000));
        w.push((0x501, 0));
        assert(w@ =~= seq![(0xB004u16, 0x2000u16), (0x604u16, 0x2000u16), (0x501u16, 0u16)]);
    }
    w
}

} // verus!
