//! The panel's date-and-time value: seven two-digit fields, used
//! transiently to set the panel's onboard clock and embedded by value
//! inside schedule bounds.

use vstd::prelude::*;

use crate::codec;
use crate::codec::envelope;
use crate::codec::two_dec;
use crate::error::Error;

verus! {

/// A date and time for the LED panel's real-time clock.
///
/// The intended ranges are: `year` 0-99 (two-digit epoch offset),
/// `week` ISO week 1-52, `month` 1-12, `day` 1-31, `hour` 0-23,
/// `minute` 0-59, `second` 0-59.
#[derive(Clone, Copy, Debug, PartialEq, Eq, Structural)]
pub struct DateTime {
    /// Year (0-99).
    pub year: u8,
    /// Week of the year (1-52).
    pub week: u8,
    /// Month (1-12).
    pub month: u8,
    /// Day of the month (1-31).
    pub day: u8,
    /// Hour (0-23).
    pub hour: u8,
    /// Minute (0-59).
    pub minute: u8,
    /// Second (0-59).
    pub second: u8,
}

impl DateTime {
    /// Every field fits in two decimal digits, which the wire layout
    /// requires.
    pub open spec fn two_digit(self) -> bool {
        self.year < 100 && self.week < 100 && self.month < 100 && self.day < 100 && self.hour < 100
            && self.minute < 100 && self.second < 100
    }

    /// The fields hold the ranges the data model intends.
    pub open spec fn valid(self) -> bool {
        self.year <= 99 && 1 <= self.week <= 52 && 1 <= self.month <= 12 && 1 <= self.day <= 31
            && self.hour <= 23 && self.minute <= 59 && self.second <= 59
    }

    /// The all-zero value of the seven fields.
    pub open spec fn zero_spec() -> DateTime {
        DateTime { year: 0u8, week: 0u8, month: 0u8, day: 0u8, hour: 0u8, minute: 0u8, second: 0u8 }
    }

    /// The midnight of the epoch's first day, the all-lowest value of
    /// each field that the layout renders.
    pub fn new() -> (r: Self)
        ensures
            r == DateTime::zero_spec(),
    {
        DateTime { year: 0, week: 0, month: 0, day: 0, hour: 0, minute: 0, second: 0 }
    }

    /// The seven fields as fourteen decimal digits, two per field, in
    /// the wire order year, week, month, day, hour, minute, second.
    pub open spec fn digits(self) -> Seq<u8> {
        two_dec(self.year) + two_dec(self.week) + two_dec(self.month) + two_dec(self.day) + two_dec(
            self.hour,
        ) + two_dec(self.minute) + two_dec(self.second)
    }

    /// Appends the fourteen digits of this value.
    pub fn push_digits(&self, out: &mut Vec<u8>)
        requires
            self.two_digit(),
        ensures
            final(out)@ == old(out)@ + self.digits(),
    {
        codec::push_two_dec(out, self.year);
        codec::push_two_dec(out, self.week);
        codec::push_two_dec(out, self.month);
        codec::push_two_dec(out, self.day);
        codec::push_two_dec(out, self.hour);
        codec::push_two_dec(out, self.minute);
        codec::push_two_dec(out, self.second);
        proof {
            assert(final(out)@ =~= old(out)@ + self.digits());
        }
    }

    /// The payload of a set-clock command: `<SC>` then the fourteen
    /// digits.
    pub open spec fn set_clock_payload(self) -> Seq<u8> {
        seq![0x3Cu8, 0x53u8, 0x43u8, 0x3Eu8] + self.digits()
    }

    /// The set-clock payload, byte for byte.
    pub fn payload_bytes(&self) -> (r: Vec<u8>)
        requires
            self.two_digit(),
        ensures
            r@ == self.set_clock_payload(),
    {
        let mut out: Vec<u8> = Vec::new();
        out.push(0x3C);
        out.push(0x53);
        out.push(0x43);
        out.push(0x3E);
        self.push_digits(&mut out);
        proof {
            assert(out@ =~= self.set_clock_payload());
        }
        out
    }

    /// The full set-clock command frame.
    pub fn command(&self, panel_id: u8) -> (r: Vec<u8>)
        requires
            self.two_digit(),
        ensures
            r@ == envelope(panel_id, self.set_clock_payload()),
    {
        let payload = self.payload_bytes();
        codec::command(panel_id, payload.as_slice())
    }

    /// The set-clock command frame, with out-of-layout fields rejected
    /// as `BadRequest` instead of being assumed away.
    pub fn checked_command(&self, panel_id: u8) -> (r: Result<Vec<u8>, Error>)
        ensures
            match r {
                Ok(f) => self.two_digit() && f@ == envelope(panel_id, self.set_clock_payload()),
                Err(e) => e == Error::BadRequest && !self.two_digit(),
            },
    {
        if self.year < 100 && self.week < 100 && self.month < 100 && self.day < 100 && self.hour
            < 100 && self.minute < 100 && self.second < 100 {
            Ok(self.command(panel_id))
        } else {
            Err(Error::BadRequest)
        }
    }
}

impl Default for DateTime {
    /// The all-zero value, as `new`.
    fn default() -> (r: Self)
        ensures
            r == DateTime::zero_spec(),
    {
        DateTime::new()
    }
}

} // verus!
