use pcf2131::CalendarDateTime;
use pcf2131::decode_time_block;
use pcf2131::encode_time_block;

fn sample() -> CalendarDateTime {
    CalendarDateTime {
        year: 2024,
        month: 6,
        day: 25,
        hour: 12,
        minute: 30,
        second: 45,
        millisecond: 100,
    }
}

#[test]
fn encode_produces_bcd_block() {
    let block = encode_time_block(&sample());
    assert_eq!(block, vec![0x10, 0x45, 0x30, 0x12, 0x25, 0x00, 0x06, 0x24]);
}

#[test]
fn decode_scenario_block() {
    let raw: [u8; 8] = [0x10, 0x45, 0x30, 0x12, 0x25, 0x00, 0x06, 0x24];
    let dt = decode_time_block(&raw).expect("block is a valid date");
    assert_eq!(dt, sample());
}

#[test]
fn decode_masks_integrity_flag_of_seconds() {
    // Top bit of the seconds byte is the oscillator-stop flag, not a digit.
    let raw: [u8; 8] = [0x10, 0xC5, 0x30, 0x12, 0x25, 0x00, 0x06, 0x24];
    let dt = decode_time_block(&raw).expect("block is a valid date");
    assert_eq!(dt.second, 45);
}

#[test]
fn round_trip_truncates_to_hundredths() {
    let dt = CalendarDateTime { millisecond: 994, ..sample() };
    let block = encode_time_block(&dt);
    let back = decode_time_block(&block[..]).expect("encoded block is valid");
    assert_eq!(back, CalendarDateTime { millisecond: 990, ..dt });
}

#[test]
fn round_trip_exact_when_millisecond_is_multiple_of_ten() {
    let block = encode_time_block(&sample());
    let back = decode_time_block(&block[..]).expect("encoded block is valid");
    assert_eq!(back, sample());
}

#[test]
fn decode_rejects_impossible_dates() {
    // Day 31 of a 30-day month.
    assert!(decode_time_block(&[0x00, 0x00, 0x00, 0x00, 0x31, 0x00, 0x06, 0x24]).is_none());
    // Month 19.
    assert!(decode_time_block(&[0x00, 0x00, 0x00, 0x00, 0x01, 0x00, 0x19, 0x24]).is_none());
    // Hour 24.
    assert!(decode_time_block(&[0x00, 0x00, 0x00, 0x24, 0x01, 0x00, 0x01, 0x24]).is_none());
    // Year offset with a non-decimal nibble decodes past 99.
    assert!(decode_time_block(&[0x00, 0x00, 0x00, 0x00, 0x01, 0x00, 0x01, 0xAA]).is_none());
    // Hundredths with a non-decimal nibble decode past 99.
    assert!(decode_time_block(&[0xAA, 0x00, 0x00, 0x00, 0x01, 0x00, 0x01, 0x24]).is_none());
}

#[test]
fn decode_handles_leap_years() {
    // 2024-02-29 exists.
    assert!(decode_time_block(&[0x00, 0x00, 0x00, 0x00, 0x29, 0x00, 0x02, 0x24]).is_some());
    // 2023-02-29 does not.
    assert!(decode_time_block(&[0x00, 0x00, 0x00, 0x00, 0x29, 0x00, 0x02, 0x23]).is_none());
    // 2000 is a leap year (divisible by 400).
    assert!(decode_time_block(&[0x00, 0x00, 0x00, 0x00, 0x29, 0x00, 0x02, 0x00]).is_some());
}

#[test]
fn validity_follows_the_calendar() {
    assert!(sample().is_valid());
    assert!(!CalendarDateTime { year: 2100, ..sample() }.is_valid());
    assert!(!CalendarDateTime { year: 1999, ..sample() }.is_valid());
    assert!(!CalendarDateTime { month: 2, day: 30, ..sample() }.is_valid());
    assert!(!CalendarDateTime { millisecond: 1000, ..sample() }.is_valid());
    assert!(CalendarDateTime { year: 2024, month: 2, day: 29, ..sample() }.is_valid());
    assert!(!CalendarDateTime { year: 2023, month: 2, day: 29, ..sample() }.is_valid());
}
