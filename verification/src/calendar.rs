//! The calendar value the driver exposes and its wire representation: the
//! 8-byte register-address-ordered time block, BCD-encoded per field.

use vstd::prelude::*;

use crate::bcd::as_bcd;
use crate::bcd::bcd_decode;
use crate::bcd::bcd_encode;
use crate::bcd::lemma_bcd_round_trip;
use crate::bcd::to_bcd;

verus! {

/// A wall-clock value as the driver exposes it. The device supports years
/// 2000 through 2099 only, and stores time with a resolution of hundredths
/// of a second, so the millisecond is truncated to 10 ms steps on write.
#[derive(Debug, Clone, Copy, PartialEq, Eq, Structural)]
pub struct CalendarDateTime {
    /// Absolute year, e.g. 2024; representable on the device only in 2000..=2099.
    pub year: u16,
    /// Month, 1..=12.
    pub month: u8,
    /// Day of month, 1..=31 and valid for the month.
    pub day: u8,
    /// Hour, 0..=23.
    pub hour: u8,
    /// Minute, 0..=59.
    pub minute: u8,
    /// Second, 0..=59.
    pub second: u8,
    /// Millisecond, 0..=999.
    pub millisecond: u16,
}

/// The Gregorian leap-year rule.
pub open spec fn is_leap_year(year: int) -> bool {
    year % 4 == 0 && (year % 100 != 0 || year % 400 == 0)
}

/// Number of days of month `month` of year `year`.
pub open spec fn days_in_month(year: int, month: int) -> int {
    if month == 2 {
        if is_leap_year(year) {
            29
        } else {
            28
        }
    } else if month == 4 || month == 6 || month == 9 || month == 11 {
        30
    } else {
        31
    }
}

impl CalendarDateTime {
    /// A value the device can hold: a real calendar date in 2000..=2099
    /// and a time of day.
    pub open spec fn wf(self) -> bool {
        &&& 2000 <= self.year <= 2099
        &&& 1 <= self.month <= 12
        &&& 1 <= self.day <= days_in_month(self.year as int, self.month as int)
        &&& self.hour <= 23
        &&& self.minute <= 59
        &&& self.second <= 59
        &&& self.millisecond <= 999
    }

    /// Does this value satisfy the device's calendar range invariant?
    pub fn is_valid(&self) -> (r: bool)
        ensures
            r == self.wf(),
    {
        let leap: bool = self.year % 4 == 0 && (self.year % 100 != 0 || self.year % 400 == 0);
        let month_days: u8 = if self.month == 2 {
            if leap {
                29
            } else {
                28
            }
        } else if self.month == 4 || self.month == 6 || self.month == 9 || self.month == 11 {
            30
        } else {
            31
        };
        2000 <= self.year && self.year <= 2099 && 1 <= self.month && self.month <= 12 && 1
            <= self.day && self.day <= month_days && self.hour <= 23 && self.minute <= 59
            && self.second <= 59 && self.millisecond <= 999
    }
}

/// The 8 data bytes of the time block as they stand in the registers from
/// SECONDS_100TH upward: hundredths, seconds, minutes, hours, day of month,
/// weekday (always written as zero), month, year offset from 2000. Each
/// numeric field is BCD-encoded; the hundredths field truncates the
/// millisecond to 10 ms resolution.
pub open spec fn raw_time_block(dt: CalendarDateTime) -> Seq<u8> {
    seq![
        bcd_encode((dt.millisecond / 10) as u8),
        bcd_encode(dt.second),
        bcd_encode(dt.minute),
        bcd_encode(dt.hour),
        bcd_encode(dt.day),
        0,
        bcd_encode(dt.month),
        bcd_encode((dt.year - 2000) as u8),
    ]
}

/// The calendar value that an 8-byte time block holds. The top bit of the
/// seconds byte is the oscillator-stop integrity flag, not part of the
/// value, and is masked off.
pub open spec fn decoded_time_block(b: Seq<u8>) -> CalendarDateTime
    recommends
        b.len() == 8,
{
    CalendarDateTime {
        year: (bcd_decode(b[7]) + 2000) as u16,
        month: bcd_decode(b[6]),
        day: bcd_decode(b[4]),
        hour: bcd_decode(b[3]),
        minute: bcd_decode(b[2]),
        second: bcd_decode(b[1] & 0x7f),
        millisecond: (bcd_decode(b[0]) * 10) as u16,
    }
}

/// Encode a calendar value into the 8 data bytes of the time block.
pub fn encode_time_block(dt: &CalendarDateTime) -> (r: Vec<u8>)
    requires
        dt.wf(),
    ensures
        r@ == raw_time_block(*dt),
{
    let mut r: Vec<u8> = Vec::new();
    r.push(to_bcd((dt.millisecond / 10) as u8));
    r.push(to_bcd(dt.second));
    r.push(to_bcd(dt.minute));
    r.push(to_bcd(dt.hour));
    r.push(to_bcd(dt.day));
    r.push(0);
    r.push(to_bcd(dt.month));
    r.push(to_bcd((dt.year - 2000) as u8));
    proof {
        assert(r@ =~= raw_time_block(*dt));
    }
    r
}

/// Decode an 8-byte time block. Returns `None` when the block does not hold
/// a valid calendar date and time of day in the device's range.
pub fn decode_time_block(bytes: &[u8]) -> (r: Option<CalendarDateTime>)
    requires
        bytes@.len() == 8,
    ensures
        r matches Some(dt) ==> dt == decoded_time_block(bytes@) && dt.wf(),
        r is None ==> !decoded_time_block(bytes@).wf(),
{
    let year_offset = as_bcd(bytes[7]);
    if year_offset > 99 {
        return None;
    }
    let dt = CalendarDateTime {
        year: year_offset as u16 + 2000,
        month: as_bcd(bytes[6]),
        day: as_bcd(bytes[4]),
        hour: as_bcd(bytes[3]),
        minute: as_bcd(bytes[2]),
        second: as_bcd(bytes[1] & 0x7f),
        millisecond: as_bcd(bytes[0]) as u16 * 10,
    };
    if dt.is_valid() {
        Some(dt)
    } else {
        None
    }
}

/// `dt` with its millisecond truncated to the device's 10 ms resolution.
pub open spec fn truncated_to_hundredths(dt: CalendarDateTime) -> CalendarDateTime {
    (CalendarDateTime { millisecond: (dt.millisecond / 10 * 10) as u16, ..dt })
}

/// Encoding a calendar value to a time block and decoding the block back
/// yields the original value, except that the millisecond is truncated to
/// 10 ms resolution; the weekday byte carries no part of the value.
pub proof fn lemma_time_block_round_trip(dt: CalendarDateTime)
    requires
        dt.wf(),
    ensures
        decoded_time_block(raw_time_block(dt)) == truncated_to_hundredths(dt),
        truncated_to_hundredths(dt).wf(),
{
    let b = raw_time_block(dt);
    lemma_bcd_round_trip((dt.millisecond / 10) as u8);
    lemma_bcd_round_trip(dt.second);
    lemma_bcd_round_trip(dt.minute);
    lemma_bcd_round_trip(dt.hour);
    lemma_bcd_round_trip(dt.day);
    lemma_bcd_round_trip(dt.month);
    lemma_bcd_round_trip((dt.year - 2000) as u8);
    let s = dt.second;
    assert(((s % 10) | ((s / 10) << 4)) & 0x7f == (s % 10) | ((s / 10) << 4)) by (bit_vector)
        requires
            s <= 59,
    ;
    assert(b[1] & 0x7f == bcd_encode(dt.second));
}

} // verus!
