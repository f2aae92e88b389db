//! A page of content for the LED panel: text plus the display settings
//! that control how the content appears, behaves and disappears, and
//! its exact rendering as a command payload.

use vstd::prelude::*;

use crate::codec;
use crate::codec::char_byte;
use crate::codec::dec_digits;
use crate::codec::envelope;
use crate::codec::ENVELOPE_OVERHEAD;
use crate::codec::MAX_FRAME_BYTES;
use crate::effects::lagging_wire;
use crate::effects::leading_wire;
use crate::effects::waiting_wire;
use crate::effects::Lagging;
use crate::effects::Leading;
use crate::effects::WaitingModeAndSpeed;
use crate::effects::WaitingTime;
use crate::error::Error;
use crate::text::escape_message;
use crate::text::escaped;

verus! {

/// Default page id.
pub const DEFAULT_PAGE: char = 'A';

/// Default line number.
pub const DEFAULT_LINE: u8 = 1;

/// A page of content for the LED panel.
#[derive(Clone, Debug)]
pub struct Page {
    /// Line number (usually 1).
    pub line: u8,
    /// Page id (A-Z).
    pub id: char,
    /// Effect for how the page appears.
    pub leading: Leading,
    /// Effect for how the page disappears.
    pub lagging: Lagging,
    /// Speed and behaviour while the page is displayed.
    pub waiting_mode_and_speed: WaitingModeAndSpeed,
    /// Waiting time between leading and lagging.
    pub waiting_time: WaitingTime,
    /// Text content of the page.
    pub message: String,
}

/// The payload of a page command:
/// `<L{line}><P{id}><F{leading}><M{speed}><W{waiting_time}><F{lagging}>{escaped_message}`.
pub open spec fn page_payload(p: Page) -> Seq<u8> {
    seq![0x3Cu8, 0x4Cu8] + dec_digits(p.line) + seq![0x3Eu8, 0x3Cu8, 0x50u8, char_byte(p.id), 0x3Eu8, 0x3Cu8, 0x46u8, leading_wire(p.leading), 0x3Eu8, 0x3Cu8, 0x4Du8, waiting_wire(p.waiting_mode_and_speed), 0x3Eu8, 0x3Cu8, 0x57u8, (0x41 + p.waiting_time.value()) as u8, 0x3Eu8, 0x3Cu8, 0x46u8, lagging_wire(p.lagging), 0x3Eu8]
        + escaped(p.message@)
}

impl Page {
    /// A page on the default line with the default id, default effects
    /// and an empty message.
    pub fn new() -> (r: Self)
        ensures
            r.line == DEFAULT_LINE,
            r.id == DEFAULT_PAGE,
            r.leading == Leading::Immediate,
            r.lagging == Lagging::Hold,
            r.waiting_mode_and_speed == WaitingModeAndSpeed::FastestNormal,
            r.waiting_time.value() == 0,
            r.message@ == Seq::<char>::empty(),
    {
        Page {
            line: DEFAULT_LINE,
            id: DEFAULT_PAGE,
            leading: Leading::default(),
            lagging: Lagging::default(),
            waiting_mode_and_speed: WaitingModeAndSpeed::default(),
            waiting_time: WaitingTime::default(),
            message: String::new(),
        }
    }

    /// Sets the line number.
    pub fn line(self, line: u8) -> (r: Self)
        ensures
            r == (Page { line, ..self }),
    {
        Page { line, ..self }
    }

    /// Sets the page id.
    pub fn page(self, id: char) -> (r: Self)
        ensures
            r == (Page { id, ..self }),
    {
        Page { id, ..self }
    }

    /// Sets the leading effect.
    pub fn leading(self, leading: Leading) -> (r: Self)
        ensures
            r == (Page { leading, ..self }),
    {
        Page { leading, ..self }
    }

    /// Sets the lagging effect.
    pub fn lagging(self, lagging: Lagging) -> (r: Self)
        ensures
            r == (Page { lagging, ..self }),
    {
        Page { lagging, ..self }
    }

    /// Sets the waiting mode and speed.
    pub fn waiting_mode_and_speed(self, waiting_mode_and_speed: WaitingModeAndSpeed) -> (r: Self)
        ensures
            r == (Page { waiting_mode_and_speed, ..self }),
    {
        Page { waiting_mode_and_speed, ..self }
    }

    /// Sets the waiting time.
    pub fn waiting_time(self, waiting_time: WaitingTime) -> (r: Self)
        ensures
            r == (Page { waiting_time, ..self }),
    {
        Page { waiting_time, ..self }
    }

    /// Replaces the message text.
    pub fn message(self, message: &str) -> (r: Self)
        ensures
            r.message@ == message@,
            r.line == self.line && r.id == self.id && r.leading == self.leading && r.lagging
                == self.lagging && r.waiting_mode_and_speed == self.waiting_mode_and_speed
                && r.waiting_time == self.waiting_time,
    {
        Page { message: String::from_str(message), ..self }
    }

    /// The page command payload, byte for byte.
    pub fn payload_bytes(&self) -> (r: Vec<u8>)
        ensures
            r@ == page_payload(*self),
    {
        let mut out: Vec<u8> = Vec::new();
        out.push(0x3C);
        out.push(0x4C);
        codec::push_dec(&mut out, self.line);
        out.push(0x3E);
        out.push(0x3C);
        out.push(0x50);
        out.push(codec::byte_of_char(self.id));
        out.push(0x3E);
        out.push(0x3C);
        out.push(0x46);
        out.push(self.leading.wire_byte());
        out.push(0x3E);
        out.push(0x3C);
        out.push(0x4D);
        out.push(self.waiting_mode_and_speed.wire_byte());
        out.push(0x3E);
        out.push(0x3C);
        out.push(0x57);
        out.push(self.waiting_time.wire_byte());
        out.push(0x3E);
        out.push(0x3C);
        out.push(0x46);
        out.push(self.lagging.wire_byte());
        out.push(0x3E);
        let msg = escape_message(self.message.as_str());
        out.extend_from_slice(msg.as_slice());
        proof {
            assert(out@ =~= page_payload(*self));
        }
        out
    }

    /// The full command frame for this page, or `Internal` when the
    /// frame would exceed the protocol's buffer capacity; the message is
    /// never silently truncated.
    pub fn command(&self, panel_id: u8) -> (r: Result<Vec<u8>, Error>)
        ensures
            match r {
                Ok(f) => {
                    &&& page_payload(*self).len() + ENVELOPE_OVERHEAD <= MAX_FRAME_BYTES
                    &&& f@ == envelope(panel_id, page_payload(*self))
                },
                Err(e) => {
                    &&& e == Error::Internal
                    &&& page_payload(*self).len() + ENVELOPE_OVERHEAD > MAX_FRAME_BYTES
                },
            },
    {
        let payload = self.payload_bytes();
        if payload.len() > MAX_FRAME_BYTES - ENVELOPE_OVERHEAD {
            Err(Error::Internal)
        } else {
            Ok(codec::command(panel_id, payload.as_slice()))
        }
    }
}

impl crate::store::IdAble for Page {
    open spec fn spec_id(&self) -> char {
        self.id
    }

    fn get_id(&self) -> (r: char) {
        self.id
    }
}

impl Default for Page {
    /// The same page as `new`: default line, id and effects, empty text.
    fn default() -> (r: Self)
        ensures
            r.line == DEFAULT_LINE,
            r.id == DEFAULT_PAGE,
            r.leading == Leading::Immediate,
            r.lagging == Lagging::Hold,
            r.waiting_mode_and_speed == WaitingModeAndSpeed::FastestNormal,
            r.waiting_time.value() == 0,
            r.message@ == Seq::<char>::empty(),
    {
        Page::new()
    }
}

impl PartialEq for Page {
    fn eq(&self, other: &Page) -> (r: bool) {
        self.line == other.line && self.id == other.id && self.leading == other.leading
            && self.lagging == other.lagging && self.waiting_mode_and_speed
            == other.waiting_mode_and_speed && self.waiting_time == other.waiting_time
            && self.message == other.message
    }
}

impl vstd::std_specs::cmp::PartialEqSpecImpl for Page {
    open spec fn obeys_eq_spec() -> bool {
        true
    }

    open spec fn eq_spec(&self, other: &Page) -> bool {
        self.line == other.line && self.id == other.id && self.leading == other.leading
            && self.lagging == other.lagging && self.waiting_mode_and_speed
            == other.waiting_mode_and_speed && self.waiting_time == other.waiting_time
            && self.message@ == other.message@
    }
}

} // verus!
