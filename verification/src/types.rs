//! Configuration value sets and their register bit patterns.

use vstd::prelude::*;

verus! {

/// Aging offset trim, from +16 ppm down to -14 ppm in 2 ppm steps.
#[derive(Debug, Clone, Copy)]
pub enum AgingOffset {
    Plus16ppm,
    Plus14ppm,
    Plus12ppm,
    Plus10ppm,
    Plus8ppm,
    Plus6ppm,
    Plus4ppm,
    Plus2ppm,
    ZeroPpm,
    Minus2ppm,
    Minus4ppm,
    Minus6ppm,
    Minus8ppm,
    Minus10ppm,
    Minus12ppm,
    Minus14ppm,
}

/// The 4-bit register value that selects an aging offset.
pub open spec fn aging_offset_regval(off: AgingOffset) -> u8 {
    match off {
        AgingOffset::Plus16ppm => 0,
        AgingOffset::Plus14ppm => 1,
        AgingOffset::Plus12ppm => 2,
        AgingOffset::Plus10ppm => 3,
        AgingOffset::Plus8ppm => 4,
        AgingOffset::Plus6ppm => 5,
        AgingOffset::Plus4ppm => 6,
        AgingOffset::Plus2ppm => 7,
        AgingOffset::ZeroPpm => 8,
        AgingOffset::Minus2ppm => 9,
        AgingOffset::Minus4ppm => 10,
        AgingOffset::Minus6ppm => 11,
        AgingOffset::Minus8ppm => 12,
        AgingOffset::Minus10ppm => 13,
        AgingOffset::Minus12ppm => 14,
        AgingOffset::Minus14ppm => 15,
    }
}

impl AgingOffset {
    /// The 4-bit register value for this trim step.
    pub fn to_regavl(self) -> (r: u8)
        ensures
            r == aging_offset_regval(self),
    {
        match self {
            AgingOffset::Plus16ppm => 0,
            AgingOffset::Plus14ppm => 1,
            AgingOffset::Plus12ppm => 2,
            AgingOffset::Plus10ppm => 3,
            AgingOffset::Plus8ppm => 4,
            AgingOffset::Plus6ppm => 5,
            AgingOffset::Plus4ppm => 6,
            AgingOffset::Plus2ppm => 7,
            AgingOffset::ZeroPpm => 8,
            AgingOffset::Minus2ppm => 9,
            AgingOffset::Minus4ppm => 10,
            AgingOffset::Minus6ppm => 11,
            AgingOffset::Minus8ppm => 12,
            AgingOffset::Minus10ppm => 13,
            AgingOffset::Minus12ppm => 14,
            AgingOffset::Minus14ppm => 15,
        }
    }
}

/// CLKOUT pin frequency selection.
#[derive(Debug, Clone, Copy)]
pub enum ClockoutFrequency {
    /// 32768 Hz
    Hz32768,
    /// 16384 Hz
    Hz16384,
    /// 8192 Hz
    Hz8192,
    /// 4096 Hz
    Hz4096,
    /// 2048 Hz
    Hz2048,
    /// 1024 Hz
    Hz1024,
    /// 1 Hz
    Hz1,
    /// CLKOUT is kept in the high-impedance state
    HighZ,
}

/// The 3-bit register value that selects a CLKOUT frequency.
pub open spec fn clockout_regval(freq: ClockoutFrequency) -> u8 {
    match freq {
        ClockoutFrequency::Hz32768 => 0b000,
        ClockoutFrequency::Hz16384 => 0b001,
        ClockoutFrequency::Hz8192 => 0b010,
        ClockoutFrequency::Hz4096 => 0b011,
        ClockoutFrequency::Hz2048 => 0b100,
        ClockoutFrequency::Hz1024 => 0b101,
        ClockoutFrequency::Hz1 => 0b110,
        ClockoutFrequency::HighZ => 0b111,
    }
}

impl ClockoutFrequency {
    /// The 3-bit register value for this frequency.
    pub fn to_regval(self) -> (r: u8)
        ensures
            r == clockout_regval(self),
    {
        match self {
            ClockoutFrequency::Hz32768 => 0b000,
            ClockoutFrequency::Hz16384 => 0b001,
            ClockoutFrequency::Hz8192 => 0b010,
            ClockoutFrequency::Hz4096 => 0b011,
            ClockoutFrequency::Hz2048 => 0b100,
            ClockoutFrequency::Hz1024 => 0b101,
            ClockoutFrequency::Hz1 => 0b110,
            ClockoutFrequency::HighZ => 0b111,
        }
    }
}

/// Power management options for selecting between Vdd and Vbat.
#[derive(Debug, Clone, Copy)]
pub enum PowerManagement {
    /// battery switch-over function is enabled in standard mode;
    /// battery low detection function is enabled
    StandardModeBatteryLowEnabled,
    /// battery switch-over function is enabled in standard mode;
    /// battery low detection function is disabled
    StandardModeBatteryLowDisabled,
    /// battery switch-over function is enabled in direct switching mode;
    /// battery low detection function is enabled
    DirectModeBatteryLowEnabled,
    /// battery switch-over function is enabled in direct switching mode;
    /// battery low detection function is disabled
    DirectModeBatteryLowDisabled,
    /// battery switch-over function is disabled, only one power supply (VDD);
    /// battery low detection function is disabled
    Disabled,
}

/// The 3-bit register value that selects a power management mode.
/// Two of the modes accept a second, equivalent bit pattern; the driver
/// always writes the canonical one given here.
pub open spec fn power_management_regval(mode: PowerManagement) -> u8 {
    match mode {
        PowerManagement::StandardModeBatteryLowEnabled => 0b000,
        PowerManagement::StandardModeBatteryLowDisabled => 0b001,
        PowerManagement::DirectModeBatteryLowEnabled => 0b011,
        PowerManagement::DirectModeBatteryLowDisabled => 0b100,
        PowerManagement::Disabled => 0b110,
    }
}

impl PowerManagement {
    /// The 3-bit register value for this mode.
    pub fn to_regval(self) -> (r: u8)
        ensures
            r == power_management_regval(self),
    {
        match self {
            PowerManagement::StandardModeBatteryLowEnabled => 0b000,
            PowerManagement::StandardModeBatteryLowDisabled => 0b001,
            PowerManagement::DirectModeBatteryLowEnabled => 0b011,
            PowerManagement::DirectModeBatteryLowDisabled => 0b100,
            PowerManagement::Disabled => 0b110,
        }
    }
}

/// Interval between two temperature measurements.
#[derive(Debug, Clone, Copy)]
pub enum TemperaturePeriod {
    Every32Mintues,
    Every16Minutes,
    Every8Minutes,
    Every4Minutes,
}

/// The 2-bit register value that selects a temperature measurement period.
pub open spec fn temperature_period_regval(period: TemperaturePeriod) -> u8 {
    match period {
        TemperaturePeriod::Every32Mintues => 0,
        TemperaturePeriod::Every16Minutes => 1,
        TemperaturePeriod::Every8Minutes => 2,
        TemperaturePeriod::Every4Minutes => 3,
    }
}

impl TemperaturePeriod {
    /// The 2-bit register value for this period.
    pub fn to_regval(self) -> (r: u8)
        ensures
            r == temperature_period_regval(self),
    {
        match self {
            TemperaturePeriod::Every32Mintues => 0,
            TemperaturePeriod::Every16Minutes => 1,
            TemperaturePeriod::Every8Minutes => 2,
            TemperaturePeriod::Every4Minutes => 3,
        }
    }
}

} // verus!
