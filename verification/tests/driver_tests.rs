use pcf2131::AgingOffset;
use pcf2131::BusRecord;
use pcf2131::CalendarDateTime;
use pcf2131::ClockoutFrequency;
use pcf2131::DriverError;
use pcf2131::Pcf2131;
use pcf2131::PowerManagement;
use pcf2131::RegisterAccess;
use pcf2131::SimBus;
use pcf2131::TemperaturePeriod;

const CONTROL_1: u8 = 0x00;
const CONTROL_3: u8 = 0x02;
const SR_RESET: u8 = 0x05;
const SECONDS_100TH: u8 = 0x06;
const CLOCKOUT_CTL: u8 = 0x13;

fn expect_write(rec: &BusRecord, bytes: &[u8]) {
    match rec {
        BusRecord::Write(data) => assert_eq!(&data[..], bytes),
        BusRecord::Read(..) => panic!("expected a write, found a read"),
    }
}

fn expect_read(rec: &BusRecord, start: u8, bytes: &[u8]) {
    match rec {
        BusRecord::Read(s, data) => {
            assert_eq!(*s, start);
            assert_eq!(&data[..], bytes);
        }
        BusRecord::Write(_) => panic!("expected a read, found a write"),
    }
}

fn sample() -> CalendarDateTime {
    CalendarDateTime {
        year: 2024,
        month: 6,
        day: 25,
        hour: 12,
        minute: 30,
        second: 45,
        millisecond: 100,
    }
}

#[test]
fn set_stop_sets_and_clears_only_bit_5() {
    let mut bus = SimBus::new();
    bus.set_register(CONTROL_1, 0b0100_1010);
    let mut rtc = Pcf2131::new(bus);
    rtc.set_stop(true).unwrap();
    let mut bus = rtc.release();
    assert_eq!(bus.read_register(CONTROL_1), Ok(0b0110_1010));

    let mut rtc = Pcf2131::new(bus);
    rtc.set_stop(false).unwrap();
    let mut bus = rtc.release();
    assert_eq!(bus.read_register(CONTROL_1), Ok(0b0100_1010));
}

#[test]
fn set_clockout_touches_only_the_low_three_bits() {
    let mut bus = SimBus::new();
    bus.set_register(CLOCKOUT_CTL, 0b1101_0110);
    let mut rtc = Pcf2131::new(bus);
    rtc.set_clockout(ClockoutFrequency::Hz1024).unwrap();
    let bus = rtc.release();
    assert_eq!(bus.get_register(CLOCKOUT_CTL), 0b1101_0101);
    assert_eq!(bus.get_register(CLOCKOUT_CTL) & 0b1111_1000, 0b1101_0000);
}

#[test]
fn clear_prescaler_writes_the_reset_command() {
    let bus = SimBus::new();
    let mut rtc = Pcf2131::new(bus);
    rtc.clear_prescaler().unwrap();
    let bus = rtc.release();
    let trace = bus.trace();
    assert_eq!(trace.len(), 1);
    expect_write(&trace[0], &[SR_RESET, 0xA4]);
}

#[test]
fn set_powermanagement_touches_only_the_high_three_bits() {
    let mut bus = SimBus::new();
    bus.set_register(CONTROL_3, 0b0001_1111);
    let mut rtc = Pcf2131::new(bus);
    rtc.set_powermanagement(PowerManagement::Disabled).unwrap();
    let bus = rtc.release();
    assert_eq!(bus.get_register(CONTROL_3), 0b1101_1111);
}

#[test]
fn disable_por_override_clears_only_bit_3() {
    let mut bus = SimBus::new();
    bus.set_register(CONTROL_1, 0xFF);
    let mut rtc = Pcf2131::new(bus);
    rtc.disable_por_override().unwrap();
    let bus = rtc.release();
    assert_eq!(bus.get_register(CONTROL_1), 0xF7);
}

#[test]
fn write_time_issues_the_four_steps_in_order() {
    let bus = SimBus::new();
    let mut rtc = Pcf2131::new(bus);
    rtc.set_datetime(&sample()).unwrap();
    let bus = rtc.release();
    let trace = bus.trace();
    assert_eq!(trace.len(), 6);
    expect_read(&trace[0], CONTROL_1, &[0x00]);
    expect_write(&trace[1], &[CONTROL_1, 0x20]);
    expect_write(&trace[2], &[SR_RESET, 0xA4]);
    expect_write(
        &trace[3],
        &[SECONDS_100TH, 0x10, 0x45, 0x30, 0x12, 0x25, 0x00, 0x06, 0x24],
    );
    expect_read(&trace[4], CONTROL_1, &[0x20]);
    expect_write(&trace[5], &[CONTROL_1, 0x00]);
}

#[test]
fn time_written_reads_back() {
    let bus = SimBus::new();
    let mut rtc = Pcf2131::new(bus);
    rtc.set_datetime(&sample()).unwrap();
    let dt = rtc.datetime().unwrap();
    assert_eq!(dt, sample());
}

#[test]
fn read_time_decodes_the_scenario_block() {
    let mut bus = SimBus::new();
    let raw = [0x10, 0x45, 0x30, 0x12, 0x25, 0x00, 0x06, 0x24];
    for (i, b) in raw.iter().enumerate() {
        bus.set_register(SECONDS_100TH + i as u8, *b);
    }
    let mut rtc = Pcf2131::new(bus);
    let dt = rtc.datetime().unwrap();
    assert_eq!(dt, sample());
    let bus = rtc.release();
    let trace = bus.trace();
    assert_eq!(trace.len(), 1);
    expect_read(&trace[0], SECONDS_100TH, &raw);
}

#[test]
fn read_time_ignores_the_integrity_flag_bit() {
    let mut bus = SimBus::new();
    let raw = [0x10, 0xC5, 0x30, 0x12, 0x25, 0x00, 0x06, 0x24];
    for (i, b) in raw.iter().enumerate() {
        bus.set_register(SECONDS_100TH + i as u8, *b);
    }
    let mut rtc = Pcf2131::new(bus);
    assert_eq!(rtc.datetime().unwrap().second, 45);
}

#[test]
fn read_time_rejects_an_impossible_date() {
    let mut bus = SimBus::new();
    // Day 31 of June.
    let raw = [0x10, 0x45, 0x30, 0x12, 0x31, 0x00, 0x06, 0x24];
    for (i, b) in raw.iter().enumerate() {
        bus.set_register(SECONDS_100TH + i as u8, *b);
    }
    let mut rtc = Pcf2131::new(bus);
    assert!(matches!(
        rtc.datetime(),
        Err(DriverError::InvalidCalendarValue)
    ));
}

#[test]
fn write_time_encodes_the_last_supported_moment() {
    let dt = CalendarDateTime {
        year: 2099,
        month: 12,
        day: 31,
        hour: 23,
        minute: 59,
        second: 59,
        millisecond: 990,
    };
    let bus = SimBus::new();
    let mut rtc = Pcf2131::new(bus);
    rtc.set_datetime(&dt).unwrap();
    let bus = rtc.release();
    expect_write(
        &bus.trace()[3],
        &[SECONDS_100TH, 0x99, 0x59, 0x59, 0x23, 0x31, 0x00, 0x12, 0x99],
    );
}

#[test]
fn write_time_rejects_year_2100_before_any_register_write() {
    let dt = CalendarDateTime {
        year: 2100,
        month: 1,
        day: 1,
        hour: 0,
        minute: 0,
        second: 0,
        millisecond: 0,
    };
    let bus = SimBus::new();
    let mut rtc = Pcf2131::new(bus);
    assert!(matches!(
        rtc.set_datetime(&dt),
        Err(DriverError::InvalidCalendarValue)
    ));
    let bus = rtc.release();
    assert_eq!(bus.trace().len(), 0);
}

#[test]
fn write_time_failure_before_resume_leaves_the_clock_stopped() {
    let mut bus = SimBus::new();
    // The fourth transaction, the time block write, fails.
    bus.set_failure(3);
    let mut rtc = Pcf2131::new(bus);
    assert!(matches!(
        rtc.set_datetime(&sample()),
        Err(DriverError::Transport(_))
    ));
    let bus = rtc.release();
    assert_eq!(bus.trace().len(), 3);
    assert_eq!(bus.get_register(CONTROL_1) & 0x20, 0x20);
}

#[test]
fn transport_errors_are_passed_on() {
    let mut bus = SimBus::new();
    bus.set_failure(0);
    let mut rtc = Pcf2131::new(bus);
    assert!(rtc.set_stop(true).is_err());

    let mut bus = SimBus::new();
    bus.set_failure(0);
    let mut rtc = Pcf2131::new(bus);
    assert!(matches!(rtc.datetime(), Err(DriverError::Transport(_))));
}

#[test]
fn otp_refresh_toggles_then_polls() {
    let bus = SimBus::new();
    let mut rtc = Pcf2131::new(bus);
    assert_eq!(rtc.perform_otp_refresh(), Ok(true));
    let bus = rtc.release();
    let trace = bus.trace();
    assert_eq!(trace.len(), 4);
    expect_read(&trace[0], CLOCKOUT_CTL, &[0x00]);
    expect_write(&trace[1], &[CLOCKOUT_CTL, 0x00]);
    expect_write(&trace[2], &[CLOCKOUT_CTL, 0x20]);
    expect_read(&trace[3], CLOCKOUT_CTL, &[0x20]);
}

#[test]
fn otp_refresh_does_not_trust_the_read_taken_before_the_toggle() {
    let mut bus = SimBus::new();
    // Bit 5 already reads as set before the toggle; the wait must still
    // poll after the toggle rather than accept that first read.
    bus.set_register(CLOCKOUT_CTL, 0x20);
    let mut rtc = Pcf2131::new(bus);
    assert_eq!(rtc.perform_otp_refresh(), Ok(true));
    let bus = rtc.release();
    let trace = bus.trace();
    assert_eq!(trace.len(), 4);
    expect_read(&trace[0], CLOCKOUT_CTL, &[0x20]);
    expect_write(&trace[1], &[CLOCKOUT_CTL, 0x00]);
    expect_write(&trace[2], &[CLOCKOUT_CTL, 0x20]);
    expect_read(&trace[3], CLOCKOUT_CTL, &[0x20]);
}

#[test]
fn configuration_values_match_the_datasheet_encodings() {
    assert_eq!(ClockoutFrequency::Hz32768.to_regval(), 0b000);
    assert_eq!(ClockoutFrequency::Hz16384.to_regval(), 0b001);
    assert_eq!(ClockoutFrequency::Hz8192.to_regval(), 0b010);
    assert_eq!(ClockoutFrequency::Hz4096.to_regval(), 0b011);
    assert_eq!(ClockoutFrequency::Hz2048.to_regval(), 0b100);
    assert_eq!(ClockoutFrequency::Hz1024.to_regval(), 0b101);
    assert_eq!(ClockoutFrequency::Hz1.to_regval(), 0b110);
    assert_eq!(ClockoutFrequency::HighZ.to_regval(), 0b111);

    assert_eq!(PowerManagement::StandardModeBatteryLowEnabled.to_regval(), 0b000);
    assert_eq!(PowerManagement::StandardModeBatteryLowDisabled.to_regval(), 0b001);
    assert_eq!(PowerManagement::DirectModeBatteryLowEnabled.to_regval(), 0b011);
    assert_eq!(PowerManagement::DirectModeBatteryLowDisabled.to_regval(), 0b100);
    assert_eq!(PowerManagement::Disabled.to_regval(), 0b110);

    assert_eq!(AgingOffset::Plus16ppm.to_regavl(), 0);
    assert_eq!(AgingOffset::ZeroPpm.to_regavl(), 8);
    assert_eq!(AgingOffset::Minus14ppm.to_regavl(), 15);

    assert_eq!(TemperaturePeriod::Every32Mintues.to_regval(), 0);
    assert_eq!(TemperaturePeriod::Every4Minutes.to_regval(), 3);
}

#[test]
fn the_transport_writes_and_reads_blocks() {
    let mut bus = SimBus::new();
    bus.write_registers(&[0x10, 1, 2, 3]).unwrap();
    assert_eq!(bus.get_register(0x10), 1);
    assert_eq!(bus.get_register(0x11), 2);
    assert_eq!(bus.get_register(0x12), 3);
    assert_eq!(bus.read_registers(0x10, 3), Ok(vec![1, 2, 3]));
    bus.write_register(0x30, 7).unwrap();
    assert_eq!(bus.read_register(0x30), Ok(7));
}
