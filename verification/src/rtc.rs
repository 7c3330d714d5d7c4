use vstd::prelude::*;

use crate::ipc::{Message, IPC_MSG_DATA_SIZE, RTC_GET_TIME};
use crate::text::{decimal_padded, zero_padded};

verus! {

/// CMOS index register port.
pub const CMOS_ADDRESS_PORT: u16 = 0x70;
/// CMOS data register port.
pub const CMOS_DATA_PORT: u16 = 0x71;
/// CMOS registers holding seconds, minutes, hours, day, month and year.
pub const RTC_SECONDS: u8 = 0x00;
pub const RTC_MINUTES: u8 = 0x02;
pub const RTC_HOURS: u8 = 0x04;
pub const RTC_DAY: u8 = 0x07;
pub const RTC_MONTH: u8 = 0x08;
pub const RTC_YEAR: u8 = 0x09;
/// CMOS status register A; its top bit is set while the clock updates.
pub const RTC_STATUS_A: u8 = 0x0A;

/// The value of a packed BCD byte: low nibble plus ten times the high nibble.
pub open spec fn bcd_value(bcd: u8) -> int {
    (bcd % 16) + (bcd / 16) * 10
}

/// Converts a packed BCD byte into binary.
pub fn bcd_to_binary(bcd: u8) -> (r: u8)
    ensures
        r == bcd_value(bcd),
{
    assert(bcd & 0x0F == bcd % 16) by (bit_vector);
    (bcd & 0x0F) + ((bcd / 16) * 10)
}

/// Whether status register A says the clock is in the middle of an update.
pub fn update_in_progress(status_a: u8) -> (b: bool)
    ensures
        b == (status_a >= 0x80),
{
    assert((status_a & 0x80 != 0) == (status_a >= 0x80)) by (bit_vector);
    status_a & 0x80 != 0
}

/// Wall-clock time as read from the RTC (year counted from 2000).
#[derive(Debug, Clone, Copy, PartialEq, Eq)]
pub struct RtcTime {
    pub year: u8,
    pub month: u8,
    pub day: u8,
    pub hours: u8,
    pub minutes: u8,
    pub seconds: u8,
}

impl RtcTime {
    /// The time held in the BCD registers read from the clock.
    pub fn from_bcd(year: u8, month: u8, day: u8, hours: u8, minutes: u8, seconds: u8) -> (t:
        RtcTime)
        ensures
            t.year == bcd_value(year),
            t.month == bcd_value(month),
            t.day == bcd_value(day),
            t.hours == bcd_value(hours),
            t.minutes == bcd_value(minutes),
            t.seconds == bcd_value(seconds),
    {
        RtcTime {
            year: bcd_to_binary(year),
            month: bcd_to_binary(month),
            day: bcd_to_binary(day),
            hours: bcd_to_binary(hours),
            minutes: bcd_to_binary(minutes),
            seconds: bcd_to_binary(seconds),
        }
    }
}

/// `m` is the clock server's reply for `t`: year, month, day, hours,
/// minutes and seconds in payload bytes 0..6, zeros after.
pub open spec fn is_time_reply(m: Message, t: RtcTime) -> bool {
    &&& m.tag == RTC_GET_TIME
    &&& m.data@[0] == t.year && m.data@[1] == t.month && m.data@[2] == t.day
    &&& m.data@[3] == t.hours && m.data@[4] == t.minutes && m.data@[5] == t.seconds
    &&& forall|k: int| 6 <= k < IPC_MSG_DATA_SIZE ==> m.data@[k] == 0
}

/// The clock server's reply for `t`.
pub fn time_reply(t: RtcTime) -> (m: Message)
    ensures
        is_time_reply(m, t),
{
    let mut m = Message::empty();
    m.tag = RTC_GET_TIME;
    m.data[0] = t.year;
    m.data[1] = t.month;
    m.data[2] = t.day;
    m.data[3] = t.hours;
    m.data[4] = t.minutes;
    m.data[5] = t.seconds;
    m
}

/// The time in a clock reply, or `None` for a reply of another kind.
pub fn decode_time_reply(m: &Message) -> (r: Option<RtcTime>)
    ensures
        m.tag != RTC_GET_TIME ==> r is None,
        m.tag == RTC_GET_TIME ==> (r matches Some(t) && t.year == m.data@[0] && t.month
            == m.data@[1] && t.day == m.data@[2] && t.hours == m.data@[3] && t.minutes
            == m.data@[4] && t.seconds == m.data@[5]),
{
    if m.tag == RTC_GET_TIME {
        Some(
            RtcTime {
                year: m.data[0],
                month: m.data[1],
                day: m.data[2],
                hours: m.data[3],
                minutes: m.data[4],
                seconds: m.data[5],
            },
        )
    } else {
        None
    }
}

/// The fields a clock reply carries are exactly those of the time it was
/// made from, so decoding it gives that time back.
pub proof fn law_time_reply_roundtrip(m: Message, t: RtcTime)
    requires
        is_time_reply(m, t),
    ensures
        m.tag == RTC_GET_TIME,
        forall|t2: RtcTime|
            t2.year == m.data@[0] && t2.month == m.data@[1] && t2.day == m.data@[2] && t2.hours
                == m.data@[3] && t2.minutes == m.data@[4] && t2.seconds == m.data@[5] ==> t2 == t,
{
}

/// `HH:MM:SS YYYY-MM-DD`, each field zero-padded (the year as 2000 + year),
/// as the shell's `date` command prints it.
pub open spec fn time_text(t: RtcTime) -> Seq<u8> {
    zero_padded(t.hours as nat, 2) + seq![0x3Au8] + zero_padded(t.minutes as nat, 2) + seq![0x3Au8]
        + zero_padded(t.seconds as nat, 2) + seq![0x20u8] + zero_padded((2000 + t.year) as nat, 4)
        + seq![0x2Du8] + zero_padded(t.month as nat, 2) + seq![0x2Du8] + zero_padded(t.day as nat, 2)
}

/// Formats a time for display.
pub fn format_time(t: RtcTime) -> (r: Vec<u8>)
    ensures
        r@ == time_text(t),
{
    let mut r = decimal_padded(t.hours as u32, 2);
    r.push(0x3A);
    let mut part = decimal_padded(t.minutes as u32, 2);
    r.append(&mut part);
    r.push(0x3A);
    let mut part = decimal_padded(t.seconds as u32, 2);
    r.append(&mut part);
    r.push(0x20);
    let mut part = decimal_padded(2000 + t.year as u32, 4);
    r.append(&mut part);
    r.push(0x2D);
    let mut part = decimal_padded(t.month as u32, 2);
    r.append(&mut part);
    r.push(0x2D);
    let mut part = decimal_padded(t.day as u32, 2);
    r.append(&mut part);
    assert(r@ =~= time_text(t));
    r
}

} // verus!
