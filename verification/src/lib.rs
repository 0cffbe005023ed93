//! Register-level driver logic for the PCF2131 real-time clock.

use vstd::prelude::*;

mod bcd;
mod bus;
mod calendar;
mod registers;
mod sim;
mod types;

pub use sim::BusRecord;
pub use sim::SimBus;
pub use sim::SimFault;

pub use calendar::CalendarDateTime;
pub use calendar::days_in_month;
pub use calendar::decode_time_block;
pub use calendar::decoded_time_block;
pub use calendar::encode_time_block;
pub use calendar::is_leap_year;
pub use calendar::lemma_time_block_round_trip;
pub use calendar::raw_time_block;
pub use calendar::truncated_to_hundredths;

pub use bus::BusOp;
pub use bus::RegisterAccess;
pub use bus::appended;
pub use bus::extends_by;
pub use bus::is_read_modify_write;
pub use bus::is_register_read;
pub use bus::read_data;
pub use bus::write_op;

pub use registers::Registers;
pub use types::AgingOffset;
pub use types::ClockoutFrequency;
pub use types::PowerManagement;
pub use types::TemperaturePeriod;
pub use types::aging_offset_regval;
pub use types::clockout_regval;
pub use types::power_management_regval;
pub use types::temperature_period_regval;

pub use bcd::as_bcd;
pub use bcd::bcd_decode;
pub use bcd::bcd_encode;
pub use bcd::lemma_bcd_round_trip;
pub use bcd::to_bcd;

use bus::lemma_extends_push;
use bus::lemma_extends_refl;
use bus::lemma_extends_trans;

verus! {

/// Default bus address of the device (7-bit addressing).
pub const DEFAULT_I2C_ADDRESS: u8 = 0x53;

/// How many polls of CLOCKOUT_CTL an OTP refresh makes at most before it
/// reports the refresh as not confirmed.
pub const OTP_POLL_LIMIT: usize = 100000;

/// What a driver operation can fail with.
#[derive(Debug, Clone, Copy)]
pub enum DriverError<E> {
    /// The transport failed; its error is passed on unchanged.
    Transport(E),
    /// A raw time block did not hold a valid calendar date and time, or a
    /// calendar value lies outside the range the device can store.
    InvalidCalendarValue,
}

/// Success of a read-modify-write of `reg`: exactly one read of the register
/// and one write back of the byte read, with the bits of `keep` preserved
/// and the bits of `set` forced on, were appended to the log.
pub open spec fn rmw_completed(
    old_log: Seq<BusOp>,
    new_log: Seq<BusOp>,
    reg: u8,
    keep: u8,
    set: u8,
) -> bool {
    &&& extends_by(old_log, new_log, 2)
    &&& is_read_modify_write(appended(old_log, new_log), reg, keep, set)
}

/// Failure of a read-modify-write of `reg`: either nothing completed, or
/// only the read of the register did.
pub open spec fn rmw_failed(old_log: Seq<BusOp>, new_log: Seq<BusOp>, reg: u8) -> bool {
    ||| new_log == old_log
    ||| (extends_by(old_log, new_log, 1) && is_register_read(appended(old_log, new_log)[0], reg))
}

/// Mask-and-preserve: a completed read-modify-write writes back a byte in
/// which every bit of `set` is set, every other bit that `keep` keeps is
/// exactly as it was read, and every bit kept by neither is cleared. In
/// particular, bits outside the modified field are unaffected.
pub proof fn lemma_rmw_mask_and_preserve(
    old_log: Seq<BusOp>,
    new_log: Seq<BusOp>,
    reg: u8,
    keep: u8,
    set: u8,
    bit: u8,
)
    requires
        rmw_completed(old_log, new_log, reg, keep, set),
        bit < 8,
    ensures
        ({
            let d = appended(old_log, new_log);
            let read_byte = read_data(d[0])[0];
            let written = (read_byte & keep) | set;
            &&& d[1] == write_op(reg, written)
            &&& (set >> bit) & 1 == 1 ==> (written >> bit) & 1 == 1
            &&& (set >> bit) & 1 == 0 && (keep >> bit) & 1 == 1 ==> (written >> bit) & 1 == (
            read_byte >> bit) & 1
            &&& (set >> bit) & 1 == 0 && (keep >> bit) & 1 == 0 ==> (written >> bit) & 1 == 0
        }),
{
    let d = appended(old_log, new_log);
    let read_byte = read_data(d[0])[0];
    assert({
        let written = (read_byte & keep) | set;
        &&& (set >> bit) & 1 == 1 ==> (written >> bit) & 1 == 1
        &&& (set >> bit) & 1 == 0 && (keep >> bit) & 1 == 1 ==> (written >> bit) & 1 == (read_byte
            >> bit) & 1
        &&& (set >> bit) & 1 == 0 && (keep >> bit) & 1 == 0 ==> (written >> bit) & 1 == 0
    }) by (bit_vector)
        requires
            bit < 8,
    ;
}

/// PCF2131 driver: composes a register transport and the BCD codec into
/// typed wall-clock and configuration operations.
pub struct Pcf2131<I> {
    interface: I,
}

impl<I: RegisterAccess> Pcf2131<I> {
    /// The bus transactions this driver has completed on its transport.
    pub closed spec fn log(&self) -> Seq<BusOp> {
        self.interface.log()
    }

    /// Take ownership of a register transport.
    pub fn new(interface: I) -> (r: Pcf2131<I>)
        ensures
            r.log() == interface.log(),
    {
        Pcf2131 { interface }
    }

    /// Give the register transport back, consuming the driver.
    pub fn release(self) -> (r: I)
        ensures
            r.log() == self.log(),
    {
        self.interface
    }

    /// Set the frequency of the CLKOUT pin: a read-modify-write of the low
    /// 3 bits of CLOCKOUT_CTL; the other bits are preserved.
    pub fn set_clockout(&mut self, freq: ClockoutFrequency) -> (r: Result<(), I::Error>)
        ensures
            r is Ok ==> rmw_completed(
                old(self).log(),
                final(self).log(),
                Registers::CLOCKOUT_CTL,
                !0b111u8,
                clockout_regval(freq),
            ),
            r is Err ==> rmw_failed(old(self).log(), final(self).log(), Registers::CLOCKOUT_CTL),
    {
        let ghost l0 = self.interface.log();
        proof {
            lemma_extends_refl(l0);
        }
        let mut clkcout_ctl = self.interface.read_register(Registers::CLOCKOUT_CTL)?;
        let ghost rd = BusOp::Read { start: Registers::CLOCKOUT_CTL, data: seq![clkcout_ctl] };
        proof {
            lemma_extends_push(l0, l0, 0, rd);
            assert(appended(l0, l0.push(rd)) =~= seq![rd]);
        }
        clkcout_ctl &= !0b111;
        clkcout_ctl |= freq.to_regval();
        self.interface.write_register(Registers::CLOCKOUT_CTL, clkcout_ctl)?;
        proof {
            lemma_extends_push(l0, l0.push(rd), 1, write_op(Registers::CLOCKOUT_CTL, clkcout_ctl));
        }
        Ok(())
    }

    /// Stop or resume the clock counter: a read-modify-write of bit 5 of
    /// CONTROL_1; the other bits are preserved.
    pub fn set_stop(&mut self, stop: bool) -> (r: Result<(), I::Error>)
        ensures
            r is Ok ==> rmw_completed(
                old(self).log(),
                final(self).log(),
                Registers::CONTROL_1,
                !(1u8 << 5),
                if stop {
                    1u8 << 5
                } else {
                    0u8
                },
            ),
            r is Err ==> rmw_failed(old(self).log(), final(self).log(), Registers::CONTROL_1),
    {
        let ghost l0 = self.interface.log();
        proof {
            lemma_extends_refl(l0);
        }
        let mut control_1 = self.interface.read_register(Registers::CONTROL_1)?;
        let ghost rd = BusOp::Read { start: Registers::CONTROL_1, data: seq![control_1] };
        proof {
            lemma_extends_push(l0, l0, 0, rd);
            assert(appended(l0, l0.push(rd)) =~= seq![rd]);
        }
        let ghost c = control_1;
        if stop {
            control_1 |= 1 << 5;
            proof {
                assert(c | (1u8 << 5) == (c & !(1u8 << 5)) | (1u8 << 5)) by (bit_vector);
            }
        } else {
            control_1 &= !(1 << 5);
            proof {
                assert(c & !(1u8 << 5) == (c & !(1u8 << 5)) | 0u8) by (bit_vector);
            }
        }
        self.interface.write_register(Registers::CONTROL_1, control_1)?;
        proof {
            lemma_extends_push(l0, l0.push(rd), 1, write_op(Registers::CONTROL_1, control_1));
        }
        Ok(())
    }

    /// Clear the clock prescaler: a single write of the reset command 0xA4
    /// to SR_RESET, which resynchronizes the sub-second counter.
    pub fn clear_prescaler(&mut self) -> (r: Result<(), I::Error>)
        ensures
            r is Ok ==> extends_by(old(self).log(), final(self).log(), 1) && appended(
                old(self).log(),
                final(self).log(),
            )[0] == write_op(Registers::SR_RESET, 0xA4),
            r is Err ==> final(self).log() == old(self).log(),
    {
        let ghost l0 = self.interface.log();
        self.interface.write_register(Registers::SR_RESET, 0xA4)?;
        proof {
            lemma_extends_refl(l0);
            lemma_extends_push(l0, l0, 0, write_op(Registers::SR_RESET, 0xA4));
        }
        Ok(())
    }

    /// Select the backup-battery power management mode: a read-modify-write
    /// of bits 5-7 of CONTROL_3; the other bits are preserved.
    pub fn set_powermanagement(&mut self, mode: PowerManagement) -> (r: Result<(), I::Error>)
        ensures
            r is Ok ==> rmw_completed(
                old(self).log(),
                final(self).log(),
                Registers::CONTROL_3,
                !0b1110_0000u8,
                power_management_regval(mode) << 5,
            ),
            r is Err ==> rmw_failed(old(self).log(), final(self).log(), Registers::CONTROL_3),
    {
        let ghost l0 = self.interface.log();
        proof {
            lemma_extends_refl(l0);
        }
        let mut control3 = self.interface.read_register(Registers::CONTROL_3)?;
        let ghost rd = BusOp::Read { start: Registers::CONTROL_3, data: seq![control3] };
        proof {
            lemma_extends_push(l0, l0, 0, rd);
            assert(appended(l0, l0.push(rd)) =~= seq![rd]);
        }
        control3 &= !0b1110_0000;
        control3 |= mode.to_regval() << 5;
        self.interface.write_register(Registers::CONTROL_3, control3)?;
        proof {
            lemma_extends_push(l0, l0.push(rd), 1, write_op(Registers::CONTROL_3, control3));
        }
        Ok(())
    }

    /// Disable the power-on-reset override: a read-modify-write that clears
    /// bit 3 of CONTROL_1; the other bits are preserved. The device offers
    /// no corresponding runtime enable, so neither does the driver.
    pub fn disable_por_override(&mut self) -> (r: Result<(), I::Error>)
        ensures
            r is Ok ==> rmw_completed(
                old(self).log(),
                final(self).log(),
                Registers::CONTROL_1,
                !(1u8 << 3),
                0u8,
            ),
            r is Err ==> rmw_failed(old(self).log(), final(self).log(), Registers::CONTROL_1),
    {
        let ghost l0 = self.interface.log();
        proof {
            lemma_extends_refl(l0);
        }
        let mut control1 = self.interface.read_register(Registers::CONTROL_1)?;
        let ghost rd = BusOp::Read { start: Registers::CONTROL_1, data: seq![control1] };
        proof {
            lemma_extends_push(l0, l0, 0, rd);
            assert(appended(l0, l0.push(rd)) =~= seq![rd]);
        }
        let ghost c = control1;
        control1 &= !(1 << 3);
        proof {
            assert(c & !(1u8 << 3) == (c & !(1u8 << 3)) | 0u8) by (bit_vector);
        }
        self.interface.write_register(Registers::CONTROL_1, control1)?;
        proof {
            lemma_extends_push(l0, l0.push(rd), 1, write_op(Registers::CONTROL_1, control1));
        }
        Ok(())
    }
}

/// The bus operation that writes the whole time block: the start register
/// SECONDS_100TH followed by the 8 encoded data bytes.
pub open spec fn time_block_write(dt: CalendarDateTime) -> BusOp {
    BusOp::Write { data: seq![Registers::SECONDS_100TH] + raw_time_block(dt) }
}

/// Success of a time write: the four steps were appended to the log in
/// order and nothing else was: stop the clock (CONTROL_1 bit 5 set by a
/// read-modify-write), reset the prescaler (0xA4 to SR_RESET), write the
/// 8-byte time block at SECONDS_100TH, resume the clock (bit 5 cleared).
pub open spec fn set_datetime_completed(
    old_log: Seq<BusOp>,
    new_log: Seq<BusOp>,
    dt: CalendarDateTime,
) -> bool {
    &&& extends_by(old_log, new_log, 6)
    &&& ({
        let d = appended(old_log, new_log);
        &&& is_read_modify_write(d.subrange(0, 2), Registers::CONTROL_1, !(1u8 << 5), 1u8 << 5)
        &&& d[2] == write_op(Registers::SR_RESET, 0xA4)
        &&& d[3] == time_block_write(dt)
        &&& is_read_modify_write(d.subrange(4, 6), Registers::CONTROL_1, !(1u8 << 5), 0u8)
    })
}

/// Failure of a time write: the completed steps are a prefix of the full
/// sequence. In particular, once the clock was stopped it is resumed only
/// after the time block itself was written: a failure in between leaves the
/// clock stopped, and the caller sees the transport error.
pub open spec fn set_datetime_failed(
    old_log: Seq<BusOp>,
    new_log: Seq<BusOp>,
    dt: CalendarDateTime,
) -> bool {
    let d = appended(old_log, new_log);
    ||| new_log == old_log
    ||| (extends_by(old_log, new_log, 1) && is_register_read(d[0], Registers::CONTROL_1))
    ||| (extends_by(old_log, new_log, 2) && is_read_modify_write(
        d,
        Registers::CONTROL_1,
        !(1u8 << 5),
        1u8 << 5,
    ))
    ||| (extends_by(old_log, new_log, 3) && is_read_modify_write(
        d.subrange(0, 2),
        Registers::CONTROL_1,
        !(1u8 << 5),
        1u8 << 5,
    ) && d[2] == write_op(Registers::SR_RESET, 0xA4))
    ||| (extends_by(old_log, new_log, 4) && is_read_modify_write(
        d.subrange(0, 2),
        Registers::CONTROL_1,
        !(1u8 << 5),
        1u8 << 5,
    ) && d[2] == write_op(Registers::SR_RESET, 0xA4) && d[3] == time_block_write(dt))
    ||| (extends_by(old_log, new_log, 5) && is_read_modify_write(
        d.subrange(0, 2),
        Registers::CONTROL_1,
        !(1u8 << 5),
        1u8 << 5,
    ) && d[2] == write_op(Registers::SR_RESET, 0xA4) && d[3] == time_block_write(dt)
        && is_register_read(d[4], Registers::CONTROL_1))
}

/// The OTP refresh toggle: a read of CLOCKOUT_CTL, a write back with bit 5
/// cleared, then a write with bit 5 set (the other bits preserved).
pub open spec fn otp_toggle(d: Seq<BusOp>) -> bool
    recommends
        d.len() >= 3,
{
    &&& is_register_read(d[0], Registers::CLOCKOUT_CTL)
    &&& d[1] == write_op(Registers::CLOCKOUT_CTL, read_data(d[0])[0] & !(1u8 << 5))
    &&& d[2] == write_op(Registers::CLOCKOUT_CTL, (read_data(d[0])[0] & !(1u8 << 5)) | (1u8 << 5))
}

/// From position `from` on, every operation of `d` is a one-byte read of
/// CLOCKOUT_CTL.
pub open spec fn all_clockout_polls(d: Seq<BusOp>, from: int) -> bool {
    forall|i: int| from <= i < d.len() ==> is_register_read(#[trigger] d[i], Registers::CLOCKOUT_CTL)
}

/// Every poll read strictly before position `upto` of `d` returned bit 5
/// clear.
pub open spec fn polls_clear_until(d: Seq<BusOp>, upto: int) -> bool {
    forall|i: int| 3 <= i < upto ==> read_data(#[trigger] d[i])[0] & (1u8 << 5) == 0
}

/// Success of an OTP refresh: the toggle was appended, followed by one or
/// more polls of CLOCKOUT_CTL; every poll taken before the last returned
/// bit 5 clear, and the last returned bit 5 set. The pre-toggle read never
/// ends the wait: polling starts only after the toggle.
pub open spec fn otp_refresh_completed(old_log: Seq<BusOp>, new_log: Seq<BusOp>) -> bool {
    let d = appended(old_log, new_log);
    &&& new_log.len() >= old_log.len() + 4
    &&& new_log.subrange(0, old_log.len() as int) == old_log
    &&& otp_toggle(d)
    &&& all_clockout_polls(d, 3)
    &&& polls_clear_until(d, d.len() - 1)
    &&& read_data(d[d.len() - 1])[0] & (1u8 << 5) != 0
}

/// The OTP refresh wait gave up: the toggle was appended, followed by the
/// full poll budget of reads of CLOCKOUT_CTL, every one of which returned
/// bit 5 clear.
pub open spec fn otp_refresh_exhausted(old_log: Seq<BusOp>, new_log: Seq<BusOp>) -> bool {
    let d = appended(old_log, new_log);
    &&& new_log.len() == old_log.len() + 3 + OTP_POLL_LIMIT
    &&& new_log.subrange(0, old_log.len() as int) == old_log
    &&& otp_toggle(d)
    &&& all_clockout_polls(d, 3)
    &&& polls_clear_until(d, d.len() as int)
}

/// Failure of an OTP refresh: a prefix of the toggle completed, or the
/// toggle completed and every poll taken so far returned bit 5 clear.
pub open spec fn otp_refresh_failed(old_log: Seq<BusOp>, new_log: Seq<BusOp>) -> bool {
    let d = appended(old_log, new_log);
    ||| new_log == old_log
    ||| (extends_by(old_log, new_log, 1) && is_register_read(d[0], Registers::CLOCKOUT_CTL))
    ||| (extends_by(old_log, new_log, 2) && is_register_read(d[0], Registers::CLOCKOUT_CTL) && d[1]
        == write_op(Registers::CLOCKOUT_CTL, read_data(d[0])[0] & !(1u8 << 5)))
    ||| (new_log.len() >= old_log.len() + 3 && new_log.subrange(0, old_log.len() as int) == old_log
        && otp_toggle(d) && all_clockout_polls(d, 3) && polls_clear_until(d, d.len() as int))
}

impl<I: RegisterAccess> Pcf2131<I> {
    /// Perform an OTP refresh: clear bit 5 of CLOCKOUT_CTL, set it again,
    /// then busy-wait, polling the register until bit 5 reads back as set.
    /// Only reads taken after the toggle can end the wait. Returns
    /// `Ok(true)` once a poll shows bit 5 set, and `Ok(false)` if the
    /// device still reports it clear after `OTP_POLL_LIMIT` polls, so that
    /// a stuck bit cannot block the caller forever.
    pub fn perform_otp_refresh(&mut self) -> (r: Result<bool, I::Error>)
        ensures
            r matches Ok(done) ==> (if done {
                otp_refresh_completed(old(self).log(), final(self).log())
            } else {
                otp_refresh_exhausted(old(self).log(), final(self).log())
            }),
            r is Err ==> otp_refresh_failed(old(self).log(), final(self).log()),
    {
        let ghost l0 = self.interface.log();
        proof {
            lemma_extends_refl(l0);
        }
        let mut clockout = self.interface.read_register(Registers::CLOCKOUT_CTL)?;
        let ghost c = clockout;
        let ghost rd = BusOp::Read { start: Registers::CLOCKOUT_CTL, data: seq![c] };
        proof {
            lemma_extends_push(l0, l0, 0, rd);
            assert(appended(l0, l0.push(rd)) =~= seq![rd]);
        }
        clockout &= !(1 << 5);
        self.interface.write_register(Registers::CLOCKOUT_CTL, clockout)?;
        proof {
            lemma_extends_push(l0, l0.push(rd), 1, write_op(Registers::CLOCKOUT_CTL, c & !(1u8 << 5)));
        }
        clockout |= 1 << 5;
        self.interface.write_register(Registers::CLOCKOUT_CTL, clockout)?;
        let ghost l3 = self.interface.log();
        proof {
            lemma_extends_push(
                l0,
                l0.push(rd).push(write_op(Registers::CLOCKOUT_CTL, c & !(1u8 << 5))),
                2,
                write_op(Registers::CLOCKOUT_CTL, (c & !(1u8 << 5)) | (1u8 << 5)),
            );
            assert(otp_toggle(appended(l0, l3)));
        }
        clockout = self.interface.read_register(Registers::CLOCKOUT_CTL)?;
        proof {
            lemma_extends_push(l0, l3, 3, BusOp::Read {
                start: Registers::CLOCKOUT_CTL,
                data: seq![clockout],
            });
        }
        let mut polls: usize = 1;
        while (clockout & (1 << 5)) == 0 && polls < OTP_POLL_LIMIT
            invariant
                old(self).log() == l0,
                1 <= polls <= OTP_POLL_LIMIT,
                self.interface.log().len() == l0.len() + 3 + polls,
                self.interface.log().subrange(0, l0.len() as int) == l0,
                otp_toggle(appended(l0, self.interface.log())),
                all_clockout_polls(appended(l0, self.interface.log()), 3),
                polls_clear_until(
                    appended(l0, self.interface.log()),
                    appended(l0, self.interface.log()).len() - 1,
                ),
                read_data(appended(l0, self.interface.log()).last()) == seq![clockout],
            decreases OTP_POLL_LIMIT - polls,
        {
            let ghost before = self.interface.log();
            proof {
                let d = appended(l0, before);
                assert forall|i: int| 3 <= i < d.len() implies read_data(#[trigger] d[i])[0] & (
                1u8 << 5) == 0 by {
                    if i == d.len() - 1 {
                        assert(read_data(d[i]) == seq![clockout]);
                    }
                }
            }
            clockout = self.interface.read_register(Registers::CLOCKOUT_CTL)?;
            proof {
                lemma_extends_push(l0, before, before.len() - l0.len(), BusOp::Read {
                    start: Registers::CLOCKOUT_CTL,
                    data: seq![clockout],
                });
            }
            polls += 1;
        }
        Ok(clockout & (1 << 5) != 0)
    }

    /// Read the current wall-clock time: one 8-byte block read starting at
    /// SECONDS_100TH, decoded per the time block layout. Fails with
    /// `InvalidCalendarValue` when the block read back does not form a
    /// valid calendar date and time.
    pub fn datetime(&mut self) -> (r: Result<CalendarDateTime, DriverError<I::Error>>)
        ensures
            r matches Ok(dt) ==> ({
                let d = appended(old(self).log(), final(self).log());
                &&& extends_by(old(self).log(), final(self).log(), 1)
                &&& d[0] matches BusOp::Read { start, data } && start == Registers::SECONDS_100TH
                    && data.len() == 8 && dt == decoded_time_block(data)
                &&& dt.wf()
            }),
            r matches Err(DriverError::InvalidCalendarValue) ==> ({
                let d = appended(old(self).log(), final(self).log());
                &&& extends_by(old(self).log(), final(self).log(), 1)
                &&& d[0] matches BusOp::Read { start, data } && start == Registers::SECONDS_100TH
                    && data.len() == 8 && !decoded_time_block(data).wf()
            }),
            r matches Err(DriverError::Transport(_)) ==> final(self).log() == old(self).log(),
    {
        let ghost l0 = self.interface.log();
        let buffer = match self.interface.read_registers(Registers::SECONDS_100TH, 8) {
            Ok(data) => data,
            Err(e) => {
                return Err(DriverError::Transport(e));
            },
        };
        proof {
            lemma_extends_refl(l0);
            lemma_extends_push(
                l0,
                l0,
                0,
                BusOp::Read { start: Registers::SECONDS_100TH, data: buffer@ },
            );
            assert(appended(l0, self.interface.log()) =~= seq![
                BusOp::Read { start: Registers::SECONDS_100TH, data: buffer@ },
            ]);
        }
        match decode_time_block(buffer.as_slice()) {
            Some(dt) => Ok(dt),
            None => Err(DriverError::InvalidCalendarValue),
        }
    }

    /// Write the wall-clock time, in the mandatory four-step order: stop
    /// the clock, reset the prescaler, write the 8-byte time block, resume
    /// the clock. A value outside the device's calendar range is rejected
    /// as `InvalidCalendarValue` before anything is written; a transport
    /// failure after the clock was stopped and before the time block was
    /// written leaves the clock stopped.
    pub fn set_datetime(&mut self, datetime: &CalendarDateTime) -> (r: Result<
        (),
        DriverError<I::Error>,
    >)
        ensures
            !datetime.wf() ==> (r matches Err(DriverError::InvalidCalendarValue)) && *final(self)
                == *old(self),
            datetime.wf() ==> !(r matches Err(DriverError::InvalidCalendarValue)),
            datetime.wf() && r is Ok ==> set_datetime_completed(
                old(self).log(),
                final(self).log(),
                *datetime,
            ),
            datetime.wf() && r is Err ==> set_datetime_failed(
                old(self).log(),
                final(self).log(),
                *datetime,
            ),
    {
        if !datetime.is_valid() {
            return Err(DriverError::InvalidCalendarValue);
        }
        let ghost l0 = self.interface.log();
        let mut buffer: Vec<u8> = Vec::new();
        buffer.push(Registers::SECONDS_100TH);
        let mut block = encode_time_block(datetime);
        buffer.append(&mut block);
        proof {
            assert(buffer@ =~= seq![Registers::SECONDS_100TH] + raw_time_block(*datetime));
        }
        match self.set_stop(true) {
            Ok(()) => {},
            Err(e) => {
                return Err(DriverError::Transport(e));
            },
        }
        let ghost l2 = self.interface.log();
        match self.clear_prescaler() {
            Ok(()) => {},
            Err(e) => {
                return Err(DriverError::Transport(e));
            },
        }
        let ghost l3 = self.interface.log();
        proof {
            lemma_extends_trans(l0, l2, l3, 2, 1);
            assert(appended(l0, l3).subrange(0, 2) =~= appended(l0, l2));
            assert(appended(l0, l3)[2] == appended(l2, l3)[0]);
        }
        match self.interface.write_registers(buffer.as_slice()) {
            Ok(()) => {},
            Err(e) => {
                return Err(DriverError::Transport(e));
            },
        }
        let ghost l4 = self.interface.log();
        proof {
            lemma_extends_push(l0, l3, 3, time_block_write(*datetime));
            assert(appended(l0, l4).subrange(0, 2) =~= appended(l0, l3).subrange(0, 2));
        }
        match self.set_stop(false) {
            Ok(()) => {},
            Err(e) => {
                proof {
                    let n = self.interface.log();
                    if n != l4 {
                        lemma_extends_trans(l0, l4, n, 4, 1);
                        assert(appended(l0, n).subrange(0, 2) =~= appended(l0, l4).subrange(0, 2));
                        assert(appended(l0, n)[4] == appended(l4, n)[0]);
                    }
                }
                return Err(DriverError::Transport(e));
            },
        }
        let ghost l6 = self.interface.log();
        proof {
            lemma_extends_trans(l0, l4, l6, 4, 2);
            assert(appended(l0, l6).subrange(0, 2) =~= appended(l0, l4).subrange(0, 2));
            assert(appended(l0, l6).subrange(4, 6) =~= appended(l4, l6));
        }
        Ok(())
    }
}

} // verus!
