//! A schedule for the LED panel: a time window and the ordered page ids
//! to rotate through while the wall-clock time is inside it.

use vstd::prelude::*;

use crate::codec;
use crate::codec::char_byte;
use crate::codec::envelope;
use crate::codec::ENVELOPE_OVERHEAD;
use crate::codec::MAX_FRAME_BYTES;
use crate::datetime::DateTime;
use crate::error::Error;

verus! {

/// Default schedule id.
pub const DEFAULT_SCHEDULE: char = 'A';

/// A schedule: while the panel's clock is within `[from, to]`, the
/// pages named in `pages` rotate on the display.
#[derive(Clone, Debug)]
pub struct Schedule {
    /// Unique identifier for the schedule (A-E).
    pub id: char,
    /// Start time for the schedule.
    pub from: DateTime,
    /// End time for the schedule.
    pub to: DateTime,
    /// Ordered page ids to display during this schedule.
    pub pages: String,
}

/// A character sequence as its wire bytes, in order.
pub open spec fn chars_bytes(s: Seq<char>) -> Seq<u8> {
    Seq::new(s.len(), |i: int| char_byte(s[i]))
}

/// The payload of a schedule command:
/// `<T{id}>{from}{to}{pages}`, the bounds rendered as fourteen digits
/// each, in the same layout as the set-clock command.
pub open spec fn schedule_payload(s: Schedule) -> Seq<u8> {
    seq![0x3Cu8, 0x54u8, char_byte(s.id), 0x3Eu8] + s.from.digits() + s.to.digits() + chars_bytes(
        s.pages@,
    )
}

impl Schedule {
    /// A schedule with the default id, all-zero bounds and no pages.
    pub fn new() -> (r: Self)
        ensures
            r.id == DEFAULT_SCHEDULE,
            r.from == DateTime::zero_spec(),
            r.to == DateTime::zero_spec(),
            r.pages@ == Seq::<char>::empty(),
    {
        Schedule {
            id: DEFAULT_SCHEDULE,
            from: DateTime::new(),
            to: DateTime::new(),
            pages: String::new(),
        }
    }

    /// Sets the schedule id.
    pub fn id(self, schedule_id: char) -> (r: Self)
        ensures
            r == (Schedule { id: schedule_id, ..self }),
    {
        Schedule { id: schedule_id, ..self }
    }

    /// Sets the start time.
    pub fn from(self, from: DateTime) -> (r: Self)
        ensures
            r == (Schedule { from, ..self }),
    {
        Schedule { from, ..self }
    }

    /// Sets the end time.
    pub fn to(self, to: DateTime) -> (r: Self)
        ensures
            r == (Schedule { to, ..self }),
    {
        Schedule { to, ..self }
    }

    /// Replaces the ordered page ids.
    pub fn pages(self, pages: &str) -> (r: Self)
        ensures
            r.pages@ == pages@,
            r.id == self.id && r.from == self.from && r.to == self.to,
    {
        Schedule { pages: String::from_str(pages), ..self }
    }

    /// The schedule command payload, byte for byte.
    pub fn payload_bytes(&self) -> (r: Vec<u8>)
        requires
            self.from.two_digit(),
            self.to.two_digit(),
        ensures
            r@ == schedule_payload(*self),
    {
        let mut out: Vec<u8> = Vec::new();
        out.push(0x3C);
        out.push(0x54);
        out.push(codec::byte_of_char(self.id));
        out.push(0x3E);
        self.from.push_digits(&mut out);
        self.to.push_digits(&mut out);
        let ghost prefix = out@;
        let pages = self.pages.as_str();
        let n = pages.unicode_len();
        let mut i: usize = 0;
        while i < n
            invariant
                n == pages@.len(),
                i <= n,
                out@ == prefix + chars_bytes(pages@).take(i as int),
            decreases n - i,
        {
            let c = pages.get_char(i);
            out.push(codec::byte_of_char(c));
            proof {
                assert(out@ =~= prefix + chars_bytes(pages@).take(i + 1));
            }
            i = i + 1;
        }
        proof {
            assert(chars_bytes(pages@).take(n as int) =~= chars_bytes(pages@));
            assert(out@ =~= schedule_payload(*self));
        }
        out
    }

    /// The full command frame for this schedule, or `Internal` when the
    /// frame would exceed the protocol's buffer capacity; the page list
    /// is never silently truncated.
    pub fn command(&self, panel_id: u8) -> (r: Result<Vec<u8>, Error>)
        requires
            self.from.two_digit(),
            self.to.two_digit(),
        ensures
            match r {
                Ok(f) => {
                    &&& schedule_payload(*self).len() + ENVELOPE_OVERHEAD <= MAX_FRAME_BYTES
                    &&& f@ == envelope(panel_id, schedule_payload(*self))
                },
                Err(e) => {
                    &&& e == Error::Internal
                    &&& schedule_payload(*self).len() + ENVELOPE_OVERHEAD > MAX_FRAME_BYTES
                },
            },
    {
        let payload = self.payload_bytes();
        if payload.len() > MAX_FRAME_BYTES - ENVELOPE_OVERHEAD {
            Err(Error::Internal)
        } else {
            Ok(codec::command(panel_id, payload.as_slice()))
        }
    }
}

impl Schedule {
    /// The command frame, with bounds whose fields do not fit the
    /// two-digit layout rejected as `BadRequest` instead of being
    /// assumed away.
    pub fn checked_command(&self, panel_id: u8) -> (r: Result<Vec<u8>, Error>)
        ensures
            match r {
                Ok(f) => {
                    &&& self.from.two_digit() && self.to.two_digit()
                    &&& schedule_payload(*self).len() + ENVELOPE_OVERHEAD <= MAX_FRAME_BYTES
                    &&& f@ == envelope(panel_id, schedule_payload(*self))
                },
                Err(e) => {
                    &&& (e == Error::BadRequest <==> !(self.from.two_digit()
                        && self.to.two_digit()))
                    &&& (e == Error::Internal ==> schedule_payload(*self).len()
                        + ENVELOPE_OVERHEAD > MAX_FRAME_BYTES)
                    &&& (e == Error::BadRequest || e == Error::Internal)
                },
            },
    {
        let from_ok = self.from.year < 100 && self.from.week < 100 && self.from.month < 100
            && self.from.day < 100 && self.from.hour < 100 && self.from.minute < 100
            && self.from.second < 100;
        let to_ok = self.to.year < 100 && self.to.week < 100 && self.to.month < 100 && self.to.day
            < 100 && self.to.hour < 100 && self.to.minute < 100 && self.to.second < 100;
        if !(from_ok && to_ok) {
            return Err(Error::BadRequest);
        }
        self.command(panel_id)
    }
}

impl crate::store::IdAble for Schedule {
    open spec fn spec_id(&self) -> char {
        self.id
    }

    fn get_id(&self) -> (r: char) {
        self.id
    }
}

impl Default for Schedule {
    /// The same schedule as `new`: default id, all-zero bounds, no
    /// pages.
    fn default() -> (r: Self)
        ensures
            r.id == DEFAULT_SCHEDULE,
            r.from == DateTime::zero_spec(),
            r.to == DateTime::zero_spec(),
            r.pages@ == Seq::<char>::empty(),
    {
        Schedule::new()
    }
}

impl PartialEq for Schedule {
    fn eq(&self, other: &Schedule) -> (r: bool) {
        self.id == other.id && self.from == other.from && self.to == other.to && self.pages
            == other.pages
    }
}

impl vstd::std_specs::cmp::PartialEqSpecImpl for Schedule {
    open spec fn obeys_eq_spec() -> bool {
        true
    }

    open spec fn eq_spec(&self, other: &Schedule) -> bool {
        self.id == other.id && self.from == other.from && self.to == other.to && self.pages@
            == other.pages@
    }
}

} // verus!
