//! Delete commands for the LED panel: delete everything, delete one
//! page, delete one schedule.

use vstd::prelude::*;

use crate::codec;
use crate::codec::char_byte;
use crate::codec::dec_digits;
use crate::codec::envelope;
use crate::page::DEFAULT_LINE;
use crate::page::DEFAULT_PAGE;
use crate::schedule::DEFAULT_SCHEDULE;

verus! {

/// Command to delete all pages and schedules from the LED panel.
pub struct DeleteAll {}

/// The delete-all payload: `<D*>`.
pub open spec fn delete_all_payload() -> Seq<u8> {
    seq![0x3Cu8, 0x44u8, 0x2Au8, 0x3Eu8]
}

impl DeleteAll {
    /// The payload `<D*>`, byte for byte.
    pub fn payload_bytes(&self) -> (r: Vec<u8>)
        ensures
            r@ == delete_all_payload(),
    {
        let mut out: Vec<u8> = Vec::new();
        out.push(0x3C);
        out.push(0x44);
        out.push(0x2A);
        out.push(0x3E);
        proof {
            assert(out@ =~= delete_all_payload());
        }
        out
    }

    /// The full delete-all command frame.
    pub fn command(&self, panel_id: u8) -> (r: Vec<u8>)
        ensures
            r@ == envelope(panel_id, delete_all_payload()),
    {
        let payload = self.payload_bytes();
        codec::command(panel_id, payload.as_slice())
    }
}

/// Command to delete a specific page from the LED panel.
pub struct DeletePage {
    /// Line number (usually 1).
    pub line: u8,
    /// Id of the page to delete (A-Z).
    pub page_id: char,
}

/// The delete-page payload: `<DL{line}P{page_id}>`.
pub open spec fn delete_page_payload(d: DeletePage) -> Seq<u8> {
    seq![0x3Cu8, 0x44u8, 0x4Cu8] + dec_digits(d.line) + seq![0x50u8, char_byte(d.page_id), 0x3Eu8]
}

impl DeletePage {
    /// A delete command for the given page id on the default line.
    pub fn new(id: char) -> (r: Self)
        ensures
            r.page_id == id,
            r.line == DEFAULT_LINE,
    {
        DeletePage { page_id: id, line: DEFAULT_LINE }
    }

    /// Sets the line number.
    pub fn line(self, line: u8) -> (r: Self)
        ensures
            r == (DeletePage { line, ..self }),
    {
        DeletePage { line, ..self }
    }

    /// Sets the page id.
    pub fn page_id(self, page_id: char) -> (r: Self)
        ensures
            r == (DeletePage { page_id, ..self }),
    {
        DeletePage { page_id, ..self }
    }

    /// The payload `<DL{line}P{page_id}>`, byte for byte.
    pub fn payload_bytes(&self) -> (r: Vec<u8>)
        ensures
            r@ == delete_page_payload(*self),
    {
        let mut out: Vec<u8> = Vec::new();
        out.push(0x3C);
        out.push(0x44);
        out.push(0x4C);
        codec::push_dec(&mut out, self.line);
        out.push(0x50);
        out.push(codec::byte_of_char(self.page_id));
        out.push(0x3E);
        proof {
            assert(out@ =~= delete_page_payload(*self));
        }
        out
    }

    /// The full delete-page command frame.
    pub fn command(&self, panel_id: u8) -> (r: Vec<u8>)
        ensures
            r@ == envelope(panel_id, delete_page_payload(*self)),
    {
        let payload = self.payload_bytes();
        codec::command(panel_id, payload.as_slice())
    }
}

impl Default for DeletePage {
    /// Deletes the default page on the default line.
    fn default() -> (r: Self)
        ensures
            r.page_id == DEFAULT_PAGE,
            r.line == DEFAULT_LINE,
    {
        DeletePage { page_id: DEFAULT_PAGE, line: DEFAULT_LINE }
    }
}

/// Command to delete a specific schedule from the LED panel.
pub struct DeleteSchedule {
    /// Id of the schedule to delete (A-E).
    pub schedule_id: char,
}

/// The delete-schedule payload: `<DT{schedule_id}>`.
pub open spec fn delete_schedule_payload(d: DeleteSchedule) -> Seq<u8> {
    seq![0x3Cu8, 0x44u8, 0x54u8, char_byte(d.schedule_id), 0x3Eu8]
}

impl DeleteSchedule {
    /// A delete command for the given schedule id.
    pub fn new(schedule_id: char) -> (r: Self)
        ensures
            r.schedule_id == schedule_id,
    {
        DeleteSchedule { schedule_id }
    }

    /// The payload `<DT{schedule_id}>`, byte for byte.
    pub fn payload_bytes(&self) -> (r: Vec<u8>)
        ensures
            r@ == delete_schedule_payload(*self),
    {
        let mut out: Vec<u8> = Vec::new();
        out.push(0x3C);
        out.push(0x44);
        out.push(0x54);
        out.push(codec::byte_of_char(self.schedule_id));
        out.push(0x3E);
        proof {
            assert(out@ =~= delete_schedule_payload(*self));
        }
        out
    }

    /// The full delete-schedule command frame.
    pub fn command(&self, panel_id: u8) -> (r: Vec<u8>)
        ensures
            r@ == envelope(panel_id, delete_schedule_payload(*self)),
    {
        let payload = self.payload_bytes();
        codec::command(panel_id, payload.as_slice())
    }
}

impl Default for DeleteSchedule {
    /// Deletes the default schedule.
    fn default() -> (r: Self)
        ensures
            r.schedule_id == DEFAULT_SCHEDULE,
    {
        DeleteSchedule { schedule_id: DEFAULT_SCHEDULE }
    }
}

} // verus!
