use umbra::ipc::{Message, POWER_OFF, RTC_GET_TIME, TICK_GET};
use umbra::pci::{
    decode_scan_reply, device_from_registers, device_line, device_reply, pci_config_address,
    scan_done_reply, PciDevice, PciScan, ScanReply, PCI_SLOTS,
};
use umbra::protocol::{
    decode_key_reply, decode_lookup_reply, decode_ticks, key_code, key_reply, lookup_reply,
    lookup_request, message_with_u64, power_off_writes, read_u64, register_request, relay_ticks,
    reply_endpoint, request_with_reply, write_u64, KeyInput, ServiceRegistry, KB_GET_CHAR_POLL,
    KEY_NONE, LOOKUP_SERVICE, REGISTER_SERVICE,
};
use umbra::rtc::{bcd_to_binary, decode_time_reply, format_time, time_reply, update_in_progress, RtcTime};
use umbra::text::{decimal_digits, decimal_padded, hex_digits};

#[test]
fn u64_fields_round_trip() {
    let mut m = Message::new(9, &[1, 2, 3]);
    write_u64(&mut m, 8, 0x0102_0304_0506_0708);
    assert_eq!(read_u64(&m, 8), 0x0102_0304_0506_0708);
    assert_eq!(&m.data[8..16], &[8, 7, 6, 5, 4, 3, 2, 1]);
    assert_eq!(&m.data[..3], &[1, 2, 3]);
    assert_eq!(m.tag, 9);
    let r = request_with_reply(3, 42);
    assert_eq!(r.tag, 3);
    assert_eq!(reply_endpoint(&r), 42);
    assert_eq!(message_with_u64(1, u64::MAX).data[..8], [0xFF; 8]);
}

#[test]
fn service_registry_register_and_lookup() {
    let mut reg = ServiceRegistry::new();
    assert!(reg.register(*b"keyboard", 20));
    assert!(reg.register(*b"tick\0\0\0\0", 21));
    assert!(reg.register(*b"keyboard", 30));
    assert_eq!(reg.lookup(b"keyboard"), 20);
    assert_eq!(reg.lookup(b"tick\0\0\0\0"), 21);
    assert_eq!(reg.lookup(b"nothing\0"), usize::MAX);
}

#[test]
fn service_registry_holds_thirty_two() {
    let mut reg = ServiceRegistry::new();
    for i in 0..32u8 {
        assert!(reg.register([i; 8], i as usize));
    }
    assert!(!reg.register([99; 8], 99));
    assert_eq!(reg.lookup(&[99; 8]), usize::MAX);
    assert_eq!(reg.lookup(&[31; 8]), 31);
}

#[test]
fn service_manager_handles_requests() {
    let mut reg = ServiceRegistry::new();
    let req = register_request(*b"tick\0\0\0\0", 21);
    assert_eq!(req.tag, REGISTER_SERVICE);
    assert!(reg.handle(&req).is_none());
    let look = lookup_request(b"tick", 5);
    assert_eq!(look.tag, LOOKUP_SERVICE);
    let (to, reply) = reg.handle(&look).unwrap();
    assert_eq!(to, 5);
    assert_eq!(decode_lookup_reply(&reply), Some(21));
    let missing = lookup_request(b"keyboard-long-name", 6);
    assert_eq!(&missing.data[..8], b"keyboard");
    let (_, reply) = reg.handle(&missing).unwrap();
    assert_eq!(decode_lookup_reply(&reply), None);
    assert!(reg.handle(&Message::new(77, &[])).is_none());
}

#[test]
fn lookup_reply_decoding() {
    assert_eq!(decode_lookup_reply(&lookup_reply(4)), Some(4));
    assert_eq!(decode_lookup_reply(&lookup_reply(usize::MAX)), None);
    let other = Message::new(1, &[4, 0, 0, 0, 0, 0, 0, 0]);
    assert_eq!(decode_lookup_reply(&other), None);
}

#[test]
fn tick_replies() {
    let raw = message_with_u64(TICK_GET, 12345);
    let relayed = relay_ticks(&raw);
    assert_eq!(relayed.tag, TICK_GET);
    assert_eq!(decode_ticks(&relayed), 12345);
    assert_eq!(decode_ticks(&Message::new(5, &[1])), 0);
}

#[test]
fn key_replies() {
    assert_eq!(key_code(KeyInput::Unicode('a')), Some(97));
    assert_eq!(key_code(KeyInput::Backspace), Some(8));
    assert_eq!(key_code(KeyInput::OtherRaw), None);
    let m = key_reply(KB_GET_CHAR_POLL, 'é' as u32);
    assert_eq!(decode_key_reply(&m), Some('é'));
    assert_eq!(decode_key_reply(&key_reply(KB_GET_CHAR_POLL, 8)), Some('\x08'));
    assert_eq!(decode_key_reply(&key_reply(KB_GET_CHAR_POLL, KEY_NONE)), None);
    assert_eq!(decode_key_reply(&key_reply(KB_GET_CHAR_POLL, 0xD800)), None);
    assert_eq!(decode_key_reply(&key_reply(2, 'a' as u32)), None);
}

#[test]
fn power_off_request_writes_ports() {
    let w = power_off_writes(&Message::new(POWER_OFF, &[]));
    assert_eq!(w, vec![(0xB004, 0x2000), (0x604, 0x2000), (0x501, 0)]);
    assert!(power_off_writes(&Message::new(7, &[])).is_empty());
}

#[test]
fn bcd_and_clock() {
    assert_eq!(bcd_to_binary(0x59), 59);
    assert_eq!(bcd_to_binary(0x00), 0);
    assert_eq!(bcd_to_binary(0x99), 99);
    assert!(update_in_progress(0x80));
    assert!(update_in_progress(0xA6));
    assert!(!update_in_progress(0x26));
    let t = RtcTime::from_bcd(0x24, 0x03, 0x15, 0x09, 0x05, 0x07);
    assert_eq!((t.year, t.month, t.day, t.hours, t.minutes, t.seconds), (24, 3, 15, 9, 5, 7));
    let m = time_reply(t);
    assert_eq!(m.tag, RTC_GET_TIME);
    assert_eq!(decode_time_reply(&m), Some(t));
    assert_eq!(decode_time_reply(&Message::new(2, &[])), None);
    assert_eq!(format_time(t), b"09:05:07 2024-03-15".to_vec());
}

#[test]
fn decimal_and_hex_text() {
    assert_eq!(decimal_digits(0), b"0".to_vec());
    assert_eq!(decimal_digits(4096), b"4096".to_vec());
    assert_eq!(decimal_padded(7, 2), b"07".to_vec());
    assert_eq!(decimal_padded(123, 2), b"123".to_vec());
    assert_eq!(decimal_padded(2024, 4), b"2024".to_vec());
    assert_eq!(hex_digits(0x8086, 4), b"8086".to_vec());
    assert_eq!(hex_digits(0xAB, 2), b"AB".to_vec());
    assert_eq!(hex_digits(0x1234, 2), b"34".to_vec());
    assert_eq!(hex_digits(0xDEAD_BEEF, 8), b"DEADBEEF".to_vec());
    assert!(hex_digits(5, 0).is_empty());
}

#[test]
fn pci_addresses_and_devices() {
    assert_eq!(pci_config_address(0, 0, 0, 0), 0x8000_0000);
    assert_eq!(pci_config_address(1, 2, 3, 0x0B), 0x8001_1308);
    assert_eq!(device_from_registers(0, 1, 0, 0xFFFF_FFFF, 0), None);
    let d = device_from_registers(0, 3, 1, 0x100E_8086, 0x0200_0003).unwrap();
    assert_eq!(d.vendor_id, 0x8086);
    assert_eq!(d.device_id, 0x100E);
    assert_eq!(d.class_code, 0x02);
    assert_eq!(d.subclass, 0x00);
    assert_eq!((d.bus, d.device, d.func), (0, 3, 1));
}

#[test]
fn pci_replies_round_trip() {
    let d = PciDevice { bus: 0, device: 2, func: 0, class_code: 3, subclass: 0, vendor_id: 0x1234, device_id: 0x1111 };
    let m = device_reply(d);
    assert_eq!(decode_scan_reply(&m), ScanReply::Device(d));
    assert_eq!(decode_scan_reply(&scan_done_reply()), ScanReply::Done);
    assert_eq!(decode_scan_reply(&Message::new(9, &[])), ScanReply::Other);
    assert_eq!(
        device_line(d),
        b"Bus 00 | Dev 02 | Func 00 => Vendor: 1234, Device: 1111 | Class: 03, Sub: 00\n".to_vec()
    );
}

#[test]
fn pci_scan_visits_every_slot_in_order() {
    let mut s = PciScan::new();
    assert_eq!(s.next_slot(), Some((0, 0, 0)));
    assert_eq!(s.next_slot(), Some((0, 0, 1)));
    let mut count = 2u32;
    let mut last = (0, 0, 1);
    while let Some(slot) = s.next_slot() {
        count += 1;
        last = slot;
        if count == 9 {
            assert_eq!(slot, (0, 1, 0));
        }
        if count == 257 {
            assert_eq!(slot, (1, 0, 0));
        }
    }
    assert_eq!(count, PCI_SLOTS);
    assert_eq!(last, (255, 31, 7));
    assert_eq!(s.next_slot(), None);
}

#[test]
fn the_service_manager_keeps_the_first_thirty_two_registrations() {
    let mut reg = ServiceRegistry::new();
    // Registrations interleaved with lookups and unknown tags; 40 of them in all.
    for i in 0..40u8 {
        let name = [b'a' + (i % 20), 0, 0, 0, 0, 0, 0, 0];
        assert!(reg.handle(&register_request(name, 100 + i as usize)).is_none());
        assert!(reg.handle(&Message::new(9, &[i])).is_none());
        let (_, reply) = reg.handle(&lookup_request(&name[..1], 7)).unwrap();
        // The earliest registration of the name wins.
        assert_eq!(decode_lookup_reply(&reply), Some(100 + (i % 20) as usize));
    }
    // Names first registered after the 32nd registration were dropped.
    let mut late = ServiceRegistry::new();
    for i in 0..32u8 {
        assert!(late.handle(&register_request([i + 1; 8], i as usize)).is_none());
    }
    assert!(late.handle(&register_request(*b"latecome", 500)).is_none());
    let (_, reply) = late.handle(&lookup_request(b"latecome", 1)).unwrap();
    assert_eq!(decode_lookup_reply(&reply), None);
    let (_, reply) = late.handle(&lookup_request(&[32; 8], 1)).unwrap();
    assert_eq!(decode_lookup_reply(&reply), Some(31));
}
