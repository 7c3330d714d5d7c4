use vstd::prelude::*;
use vstd::bytes::*;

use crate::ipc::{Message, IPC_MSG_DATA_SIZE};
use crate::text::{hex_char, hex_digits, hex_digits_spec, shift16};

verus! {

/// I/O port that selects a configuration-space register.
pub const PCI_CONFIG_ADDRESS: u16 = 0xCF8;
/// I/O port that reads the selected register.
pub const PCI_CONFIG_DATA: u16 = 0xCFC;
/// Tag of a reply describing one device.
pub const PCI_DEVICE: u32 = 1;
/// Tag of the reply that ends a scan.
pub const PCI_SCAN_DONE: u32 = 2;

/// The configuration address of register `offset` of `bus:device.func`:
/// the enable bit, then bus, device and function numbers, and the offset
/// rounded down to a 4-byte boundary.
pub fn pci_config_address(bus: u8, device: u8, func: u8, offset: u8) -> (a: u32)
    ensures
        a == (0x8000_0000u32 | ((bus as u32) << 16u32) | ((device as u32) << 11u32) | ((
        func as u32) << 8u32) | (offset as u32 & 0xFCu32)),
{
    0x8000_0000u32 | ((bus as u32) << 16u32) | ((device as u32) << 11u32) | ((func as u32) << 8u32)
        | (offset as u32 & 0xFC)
}

/// Whether configuration register 0 shows a device: a vendor id other
/// than `0xFFFF`.
pub fn device_present(reg0: u32) -> (b: bool)
    ensures
        b == (reg0 % 0x1_0000 != 0xFFFF),
{
    assert(reg0 & 0xFFFF == reg0 % 0x1_0000) by (bit_vector);
    reg0 & 0xFFFF != 0xFFFF
}

/// A device found by a scan.
#[derive(Debug, Clone, Copy, PartialEq, Eq)]
pub struct PciDevice {
    pub bus: u8,
    pub device: u8,
    pub func: u8,
    pub class_code: u8,
    pub subclass: u8,
    pub vendor_id: u16,
    pub device_id: u16,
}

/// The device described by configuration registers 0 and 8 of
/// `bus:device.func`, or `None` when the vendor id reads as `0xFFFF`
/// (no device there).
pub fn device_from_registers(bus: u8, device: u8, func: u8, reg0: u32, reg8: u32) -> (r: Option<
    PciDevice,
>)
    ensures
        r is None <==> reg0 % 0x1_0000 == 0xFFFF,
        r matches Some(d) ==> {
            &&& d.bus == bus && d.device == device && d.func == func
            &&& d.vendor_id == reg0 % 0x1_0000
            &&& d.device_id == reg0 / 0x1_0000
            &&& d.class_code == reg8 / 0x100_0000
            &&& d.subclass == (reg8 / 0x1_0000) % 0x100
        },
{
    let vendor_id = (reg0 & 0xFFFF) as u16;
    assert(reg0 & 0xFFFF == reg0 % 0x1_0000) by (bit_vector);
    if vendor_id == 0xFFFF {
        return None;
    }
    let device_id = (reg0 >> 16) as u16;
    let class_code = (reg8 >> 24) as u8;
    let subclass = (reg8 >> 16) as u8;
    assert(reg0 >> 16 == reg0 / 0x1_0000) by (bit_vector);
    assert(reg8 >> 24 == reg8 / 0x100_0000) by (bit_vector);
    assert(((reg8 >> 16) as u8) == (reg8 / 0x1_0000) % 0x100) by (bit_vector);
    Some(PciDevice { bus, device, func, class_code, subclass, vendor_id, device_id })
}

/// `m` is the reply describing `d`: bus, device, function, class and
/// subclass in bytes 0..5, vendor and device id little-endian in 5..9.
pub open spec fn is_device_reply(m: Message, d: PciDevice) -> bool {
    &&& m.tag == PCI_DEVICE
    &&& m.data@[0] == d.bus && m.data@[1] == d.device && m.data@[2] == d.func
    &&& m.data@[3] == d.class_code && m.data@[4] == d.subclass
    &&& spec_u16_from_le_bytes(m.data@.subrange(5, 7)) == d.vendor_id
    &&& spec_u16_from_le_bytes(m.data@.subrange(7, 9)) == d.device_id
    &&& forall|k: int| 9 <= k < IPC_MSG_DATA_SIZE ==> m.data@[k] == 0
}

fn put_u16(m: &mut Message, at: usize, v: u16)
    requires
        at + 2 <= IPC_MSG_DATA_SIZE,
    ensures
        final(m).tag == old(m).tag,
        spec_u16_from_le_bytes(final(m).data@.subrange(at as int, at + 2)) == v,
        forall|k: int|
            0 <= k < IPC_MSG_DATA_SIZE && !(at <= k < at + 2) ==> final(m).data@[k] == old(
                m,
            ).data@[k],
{
    let bytes = u16_to_le_bytes(v);
    proof {
        lemma_auto_spec_u16_to_from_le_bytes();
    }
    m.data[at] = bytes[0];
    m.data[at + 1] = bytes[1];
    assert(m.data@.subrange(at as int, at + 2) =~= bytes@);
}

/// The reply the PCI server sends for a device.
pub fn device_reply(d: PciDevice) -> (m: Message)
    ensures
        is_device_reply(m, d),
{
    let mut m = Message::empty();
    m.tag = PCI_DEVICE;
    m.data[0] = d.bus;
    m.data[1] = d.device;
    m.data[2] = d.func;
    m.data[3] = d.class_code;
    m.data[4] = d.subclass;
    let ghost m0 = m;
    put_u16(&mut m, 5, d.vendor_id);
    let ghost m1 = m;
    put_u16(&mut m, 7, d.device_id);
    assert(m.data@.subrange(5, 7) =~= m1.data@.subrange(5, 7));
    assert forall|k: int| 9 <= k < IPC_MSG_DATA_SIZE implies m.data@[k] == 0 by {
        assert(m.data@[k] == m1.data@[k]);
        assert(m1.data@[k] == m0.data@[k]);
    }
    m
}

/// The reply that ends a scan.
pub fn scan_done_reply() -> (m: Message)
    ensures
        m.tag == PCI_SCAN_DONE,
        forall|k: int| 0 <= k < IPC_MSG_DATA_SIZE ==> m.data@[k] == 0,
{
    let mut m = Message::empty();
    m.tag = PCI_SCAN_DONE;
    m
}

/// What a client makes of a reply during a scan.
#[derive(Debug, Clone, Copy, PartialEq, Eq)]
pub enum ScanReply {
    Device(PciDevice),
    Done,
    Other,
}

/// Decodes a reply of the PCI server.
pub fn decode_scan_reply(m: &Message) -> (r: ScanReply)
    ensures
        m.tag == PCI_DEVICE ==> (r matches ScanReply::Device(d) && is_device_fields(*m, d)),
        m.tag == PCI_SCAN_DONE ==> r == ScanReply::Done,
        m.tag != PCI_DEVICE && m.tag != PCI_SCAN_DONE ==> r == ScanReply::Other,
{
    if m.tag == PCI_DEVICE {
        let bytes: &[u8] = m.data.as_slice();
        let vendor_id = u16_from_le_bytes(&bytes[5..7]);
        let device_id = u16_from_le_bytes(&bytes[7..9]);
        ScanReply::Device(
            PciDevice {
                bus: m.data[0],
                device: m.data[1],
                func: m.data[2],
                class_code: m.data[3],
                subclass: m.data[4],
                vendor_id,
                device_id,
            },
        )
    } else if m.tag == PCI_SCAN_DONE {
        ScanReply::Done
    } else {
        ScanReply::Other
    }
}

/// The fields of `d` are those encoded in the payload of `m`.
pub open spec fn is_device_fields(m: Message, d: PciDevice) -> bool {
    &&& m.data@[0] == d.bus && m.data@[1] == d.device && m.data@[2] == d.func
    &&& m.data@[3] == d.class_code && m.data@[4] == d.subclass
    &&& spec_u16_from_le_bytes(m.data@.subrange(5, 7)) == d.vendor_id
    &&& spec_u16_from_le_bytes(m.data@.subrange(7, 9)) == d.device_id
}

/// A device reply decodes back to the device it was made from.
pub proof fn law_device_reply_roundtrip(m: Message, d: PciDevice)
    requires
        is_device_reply(m, d),
    ensures
        m.tag == PCI_DEVICE,
        forall|d2: PciDevice| is_device_fields(m, d2) ==> d2 == d,
{
}

/// Number of `bus:device.func` slots a scan visits: 256 buses, 32 devices,
/// 8 functions.
pub const PCI_SLOTS: u32 = 65536;

/// The slot a scan visits at step `k`: buses in order, devices within a
/// bus, functions within a device.
pub open spec fn slot_at(k: int) -> (u8, u8, u8) {
    ((k / 256) as u8, ((k / 8) % 32) as u8, (k % 8) as u8)
}

/// A scan of every configuration slot, in order.
#[derive(Debug, Clone, Copy)]
pub struct PciScan {
    pub next: u32,
}

impl PciScan {
    /// A scan that starts at bus 0, device 0, function 0.
    pub fn new() -> (s: PciScan)
        ensures
            s.next == 0,
    {
        PciScan { next: 0 }
    }

    /// The next slot to probe, or `None` once all slots were visited.
    pub fn next_slot(&mut self) -> (r: Option<(u8, u8, u8)>)
        ensures
            old(self).next < PCI_SLOTS ==> r == Some(slot_at(old(self).next as int))
                && final(self).next == old(self).next + 1,
            old(self).next >= PCI_SLOTS ==> r is None && final(self).next == old(self).next,
    {
        if self.next >= PCI_SLOTS {
            return None;
        }
        let k = self.next;
        self.next = k + 1;
        Some(((k / 256) as u8, ((k / 8) % 32) as u8, (k % 8) as u8))
    }
}

/// A scan visits every slot exactly once: distinct steps probe distinct slots.
pub proof fn law_scan_visits_each_slot_once(j: int, k: int)
    requires
        0 <= j < k < PCI_SLOTS,
    ensures
        slot_at(j) != slot_at(k),
{
    if slot_at(j) == slot_at(k) {
        assert(j == (j / 256) * 256 + ((j / 8) % 32) * 8 + j % 8) by (nonlinear_arith)
            requires
                0 <= j,
        ;
        assert(k == (k / 256) * 256 + ((k / 8) % 32) * 8 + k % 8) by (nonlinear_arith)
            requires
                0 <= k,
        ;
        assert(j / 256 < 256 && k / 256 < 256);
    }
}

/// ASCII text of `lspci`'s line for a device.
pub open spec fn device_line_text(d: PciDevice) -> Seq<u8> {
    seq![0x42u8, 0x75, 0x73, 0x20] + hex_digits_spec(d.bus as nat, 2)
        + seq![0x20u8, 0x7C, 0x20, 0x44, 0x65, 0x76, 0x20] + hex_digits_spec(d.device as nat, 2)
        + seq![0x20u8, 0x7C, 0x20, 0x46, 0x75, 0x6E, 0x63, 0x20] + hex_digits_spec(d.func as nat, 2)
        + seq![0x20u8, 0x3D, 0x3E, 0x20, 0x56, 0x65, 0x6E, 0x64, 0x6F, 0x72, 0x3A, 0x20]
        + hex_digits_spec(d.vendor_id as nat, 4)
        + seq![0x2Cu8, 0x20, 0x44, 0x65, 0x76, 0x69, 0x63, 0x65, 0x3A, 0x20]
        + hex_digits_spec(d.device_id as nat, 4)
        + seq![0x20u8, 0x7C, 0x20, 0x43, 0x6C, 0x61, 0x73, 0x73, 0x3A, 0x20]
        + hex_digits_spec(d.class_code as nat, 2)
        + seq![0x2Cu8, 0x20, 0x53, 0x75, 0x62, 0x3A, 0x20] + hex_digits_spec(d.subclass as nat, 2)
        + seq![0x0Au8]
}

fn push_all(v: &mut Vec<u8>, tail: &[u8])
    ensures
        final(v)@ == old(v)@ + tail@,
{
    let mut i: usize = 0;
    while i < tail.len()
        invariant
            i <= tail@.len(),
            v@ == old(v)@ + tail@.subrange(0, i as int),
        decreases tail@.len() - i,
    {
        v.push(tail[i]);
        i = i + 1;
        assert(v@ =~= old(v)@ + tail@.subrange(0, i as int));
    }
    assert(tail@.subrange(0, tail@.len() as int) =~= tail@);
}

/// The line `lspci` prints for a device:
/// `Bus BB | Dev DD | Func FF => Vendor: VVVV, Device: DDDD | Class: CC, Sub: SS`
/// in upper-case hexadecimal, then a newline.
pub fn device_line(d: PciDevice) -> (r: Vec<u8>)
    ensures
        r@ == device_line_text(d),
{
    let mut r: Vec<u8> = Vec::new();
    let bus: [u8; 4] = [0x42, 0x75, 0x73, 0x20];
    push_all(&mut r, bus.as_slice());
    push_all(&mut r, hex_digits(d.bus as u32, 2).as_slice());
    let dev: [u8; 7] = [0x20, 0x7C, 0x20, 0x44, 0x65, 0x76, 0x20];
    push_all(&mut r, dev.as_slice());
    push_all(&mut r, hex_digits(d.device as u32, 2).as_slice());
    let func: [u8; 8] = [0x20, 0x7C, 0x20, 0x46, 0x75, 0x6E, 0x63, 0x20];
    push_all(&mut r, func.as_slice());
    push_all(&mut r, hex_digits(d.func as u32, 2).as_slice());
    let vendor: [u8; 12] = [0x20, 0x3D, 0x3E, 0x20, 0x56, 0x65, 0x6E, 0x64, 0x6F, 0x72, 0x3A, 0x20];
    push_all(&mut r, vendor.as_slice());
    push_all(&mut r, hex_digits(d.vendor_id as u32, 4).as_slice());
    let device: [u8; 10] = [0x2C, 0x20, 0x44, 0x65, 0x76, 0x69, 0x63, 0x65, 0x3A, 0x20];
    push_all(&mut r, device.as_slice());
    push_all(&mut r, hex_digits(d.device_id as u32, 4).as_slice());
    let class: [u8; 10] = [0x20, 0x7C, 0x20, 0x43, 0x6C, 0x61, 0x73, 0x73, 0x3A, 0x20];
    push_all(&mut r, class.as_slice());
    push_all(&mut r, hex_digits(d.class_code as u32, 2).as_slice());
    let sub: [u8; 7] = [0x2C, 0x20, 0x53, 0x75, 0x62, 0x3A, 0x20];
    push_all(&mut r, sub.as_slice());
    push_all(&mut r, hex_digits(d.subclass as u32, 2).as_slice());
    r.push(0x0A);
    assert(r@ =~= device_line_text(d));
    r
}

proof fn lemma_two_hex_digits(v: nat)
    requires
        v < 0x100,
    ensures
        hex_digits_spec(v, 2) == seq![hex_char(v / 16), hex_char(v % 16)],
{
    reveal_with_fuel(shift16, 2);
    assert(shift16(v, 1) == v / 16);
    assert(v / 16 < 16);
    assert(hex_digits_spec(v, 2) =~= seq![hex_char(v / 16), hex_char(v % 16)]);
}

proof fn lemma_four_hex_digits(v: nat)
    requires
        v < 0x10000,
    ensures
        hex_digits_spec(v, 4) == seq![
            hex_char(v / 0x1000),
            hex_char(v / 0x100 % 16),
            hex_char(v / 16 % 16),
            hex_char(v % 16),
        ],
{
    reveal_with_fuel(shift16, 4);
    assert(shift16(v, 1) == v / 16);
    assert(shift16(v, 2) == v / 16 / 16);
    assert(shift16(v, 3) == v / 16 / 16 / 16);
    assert(v / 16 / 16 == v / 0x100) by (nonlinear_arith)
        requires
            v >= 0,
    ;
    assert(v / 16 / 16 / 16 == v / 0x1000) by (nonlinear_arith)
        requires
            v >= 0,
    ;
    assert(v / 0x1000 < 16);
    assert(hex_digits_spec(v, 4) =~= seq![
        hex_char(v / 0x1000),
        hex_char(v / 0x100 % 16),
        hex_char(v / 16 % 16),
        hex_char(v % 16),
    ]);
}

/// What each labelled field of an `lspci` line shows: the line reads
/// `Bus `, then the bus number's two hexadecimal digits (high digit first),
/// ` | Dev `, the device number's, ` | Func `, the function number's,
/// ` => Vendor: `, the vendor id's four digits, `, Device: `, the device
/// id's four, ` | Class: `, the class code's two, `, Sub: `, the subclass's
/// two, and a newline; each label is followed by the field of that name.
pub proof fn law_device_line_fields(d: PciDevice)
    ensures
        ({
            let t = device_line_text(d);
            &&& t.len() == 77
            &&& t.subrange(0, 4) == seq![0x42u8, 0x75, 0x73, 0x20]
            &&& t.subrange(4, 6) == seq![hex_char(d.bus as nat / 16), hex_char(d.bus as nat % 16)]
            &&& t.subrange(6, 13) == seq![0x20u8, 0x7C, 0x20, 0x44, 0x65, 0x76, 0x20]
            &&& t.subrange(13, 15) == seq![hex_char(d.device as nat / 16), hex_char(d.device as nat % 16)]
            &&& t.subrange(15, 23) == seq![0x20u8, 0x7C, 0x20, 0x46, 0x75, 0x6E, 0x63, 0x20]
            &&& t.subrange(23, 25) == seq![hex_char(d.func as nat / 16), hex_char(d.func as nat % 16)]
            &&& t.subrange(25, 37) == seq![0x20u8, 0x3D, 0x3E, 0x20, 0x56, 0x65, 0x6E, 0x64, 0x6F, 0x72, 0x3A, 0x20]
            &&& t.subrange(37, 41) == seq![
                hex_char(d.vendor_id as nat / 0x1000),
                hex_char(d.vendor_id as nat / 0x100 % 16),
                hex_char(d.vendor_id as nat / 16 % 16),
                hex_char(d.vendor_id as nat % 16),
            ]
            &&& t.subrange(41, 51) == seq![0x2Cu8, 0x20, 0x44, 0x65, 0x76, 0x69, 0x63, 0x65, 0x3A, 0x20]
            &&& t.subrange(51, 55) == seq![
                hex_char(d.device_id as nat / 0x1000),
                hex_char(d.device_id as nat / 0x100 % 16),
                hex_char(d.device_id as nat / 16 % 16),
                hex_char(d.device_id as nat % 16),
            ]
            &&& t.subrange(55, 65) == seq![0x20u8, 0x7C, 0x20, 0x43, 0x6C, 0x61, 0x73, 0x73, 0x3A, 0x20]
            &&& t.subrange(65, 67) == seq![hex_char(d.class_code as nat / 16), hex_char(d.class_code as nat % 16)]
            &&& t.subrange(67, 74) == seq![0x2Cu8, 0x20, 0x53, 0x75, 0x62, 0x3A, 0x20]
            &&& t.subrange(74, 76) == seq![hex_char(d.subclass as nat / 16), hex_char(d.subclass as nat % 16)]
            &&& t[76] == 0x0Au8
        }),
{
    lemma_two_hex_digits(d.bus as nat);
    lemma_two_hex_digits(d.device as nat);
    lemma_two_hex_digits(d.func as nat);
    lemma_two_hex_digits(d.class_code as nat);
    lemma_two_hex_digits(d.subclass as nat);
    lemma_four_hex_digits(d.vendor_id as nat);
    lemma_four_hex_digits(d.device_id as nat);
    let t = device_line_text(d);
    assert(t.subrange(0, 4) =~= seq![0x42u8, 0x75, 0x73, 0x20]);
    assert(t.subrange(4, 6) =~= hex_digits_spec(d.bus as nat, 2));
    assert(t.subrange(6, 13) =~= seq![0x20u8, 0x7C, 0x20, 0x44, 0x65, 0x76, 0x20]);
    assert(t.subrange(13, 15) =~= hex_digits_spec(d.device as nat, 2));
    assert(t.subrange(15, 23) =~= seq![0x20u8, 0x7C, 0x20, 0x46, 0x75, 0x6E, 0x63, 0x20]);
    assert(t.subrange(23, 25) =~= hex_digits_spec(d.func as nat, 2));
    assert(t.subrange(25, 37) =~= seq![0x20u8, 0x3D, 0x3E, 0x20, 0x56, 0x65, 0x6E, 0x64, 0x6F, 0x72, 0x3A, 0x20]);
    assert(t.subrange(37, 41) =~= hex_digits_spec(d.vendor_id as nat, 4));
    assert(t.subrange(41, 51) =~= seq![0x2Cu8, 0x20, 0x44, 0x65, 0x76, 0x69, 0x63, 0x65, 0x3A, 0x20]);
    assert(t.subrange(51, 55) =~= hex_digits_spec(d.device_id as nat, 4));
    assert(t.subrange(55, 65) =~= seq![0x20u8, 0x7C, 0x20, 0x43, 0x6C, 0x61, 0x73, 0x73, 0x3A, 0x20]);
    assert(t.subrange(65, 67) =~= hex_digits_spec(d.class_code as nat, 2));
    assert(t.subrange(67, 74) =~= seq![0x2Cu8, 0x20, 0x53, 0x75, 0x62, 0x3A, 0x20]);
    assert(t.subrange(74, 76) =~= hex_digits_spec(d.subclass as nat, 2));
}

} // verus!
