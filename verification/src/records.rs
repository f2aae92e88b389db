//! The byte layout of stored records: how a page or a schedule is
//! framed for the persistent store and recovered from it. Encoding and
//! decoding invert each other, which the lemmas at the end state.

use vstd::prelude::*;
use vstd::slice::slice_subrange;
use vstd::slice::slice_to_vec;
use vstd::utf8::encode_utf8;
use vstd::utf8::encode_utf8_decode_utf8;
use vstd::utf8::encode_utf8_valid_utf8;
use vstd::utf8::valid_utf8;

use crate::codec::char_byte;
use crate::codec::byte_of_char;
use crate::datetime::DateTime;
use crate::effects::lagging_wire;
use crate::effects::leading_wire;
use crate::effects::lemma_waiting_time_eq;
use crate::effects::waiting_wire;
use crate::effects::Lagging;
use crate::effects::Leading;
use crate::effects::WaitingModeAndSpeed;
use crate::effects::WaitingTime;
use crate::effects::MAX_WAITING_TIME;
use crate::page::Page;
use crate::schedule::Schedule;

verus! {

/// Bytes of a page record before its message: line, id, the three
/// effect bytes, the waiting time, and the message byte length.
pub const PAGE_RECORD_HEADER: usize = 7;

/// The longest message, in encoded bytes, that a page record holds.
pub const MAX_MESSAGE_BYTES: usize = 248;

/// Bytes of a schedule record before its page list: id, the seven
/// fields of each bound, and the page-list byte length.
pub const SCHEDULE_RECORD_HEADER: usize = 16;

/// The longest page list, in encoded bytes, that a schedule record
/// holds.
pub const MAX_PAGES_BYTES: usize = 239;

/// The stored form of a page: a fixed header and the message text in
/// UTF-8.
pub open spec fn page_record(p: Page) -> Seq<u8> {
    seq![
        p.line,
        char_byte(p.id),
        leading_wire(p.leading),
        lagging_wire(p.lagging),
        waiting_wire(p.waiting_mode_and_speed),
        p.waiting_time.value(),
        encode_utf8(p.message@).len() as u8,
    ] + encode_utf8(p.message@)
}

/// The bytes parse as a page record: known effect bytes, a waiting
/// time in range, a length byte that matches, and a message that is
/// valid UTF-8.
pub open spec fn page_record_parses(bytes: Seq<u8>) -> bool {
    &&& bytes.len() >= PAGE_RECORD_HEADER
    &&& (exists|l: Leading| leading_wire(l) == bytes[2])
    &&& (exists|l: Lagging| lagging_wire(l) == bytes[3])
    &&& (exists|w: WaitingModeAndSpeed| waiting_wire(w) == bytes[4])
    &&& bytes[5] <= MAX_WAITING_TIME
    &&& bytes[6] == bytes.len() - PAGE_RECORD_HEADER
    &&& valid_utf8(bytes.skip(PAGE_RECORD_HEADER as int))
}

/// Relies on `String::from_utf8`: it accepts exactly the valid UTF-8
/// byte sequences and returns the string those bytes spell.
#[verifier::external_body]
fn string_from_utf8(bytes: Vec<u8>) -> (r: Option<String>)
    ensures
        match r {
            Some(s) => encode_utf8(s@) == bytes@ && valid_utf8(bytes@),
            None => !valid_utf8(bytes@),
        },
{
    String::from_utf8(bytes).ok()
}

/// The leading effect with the given wire byte, when one exists.
fn decode_leading(b: u8) -> (r: Option<Leading>)
    ensures
        match r {
            Some(l) => leading_wire(l) == b,
            None => forall|l: Leading| leading_wire(l) != b,
        },
{
    match b {
        0x41 => Some(Leading::Immediate),
        0x42 => Some(Leading::Xopen),
        0x43 => Some(Leading::CurtainUp),
        0x44 => Some(Leading::CurtainDown),
        0x45 => Some(Leading::ScrollLeft),
        0x46 => Some(Leading::ScrollRight),
        0x47 => Some(Leading::Vopen),
        0x48 => Some(Leading::Vclose),
        0x49 => Some(Leading::ScrollUp),
        0x4A => Some(Leading::ScrollDown),
        0x4B => Some(Leading::Hold),
        0x4C => Some(Leading::Snow),
        0x4D => Some(Leading::Twinkle),
        0x4E => Some(Leading::BlockMove),
        0x50 => Some(Leading::Random),
        0x51 => Some(Leading::PenHelloWorld),
        0x52 => Some(Leading::PenWelcome),
        0x53 => Some(Leading::PenAmplus),
        _ => None,
    }
}

/// The lagging effect with the given wire byte, when one exists.
fn decode_lagging(b: u8) -> (r: Option<Lagging>)
    ensures
        match r {
            Some(l) => lagging_wire(l) == b,
            None => forall|l: Lagging| lagging_wire(l) != b,
        },
{
    match b {
        0x41 => Some(Lagging::Immediate),
        0x42 => Some(Lagging::Xopen),
        0x43 => Some(Lagging::CurtainUp),
        0x44 => Some(Lagging::CurtainDown),
        0x45 => Some(Lagging::ScrollLeft),
        0x46 => Some(Lagging::ScrollRight),
        0x47 => Some(Lagging::Vopen),
        0x48 => Some(Lagging::Vclose),
        0x49 => Some(Lagging::ScrollUp),
        0x4A => Some(Lagging::ScrollDown),
        0x4B => Some(Lagging::Hold),
        _ => None,
    }
}

/// The waiting mode and speed with the given wire byte, when one
/// exists.
fn decode_waiting(b: u8) -> (r: Option<WaitingModeAndSpeed>)
    ensures
        match r {
            Some(w) => waiting_wire(w) == b,
            None => forall|w: WaitingModeAndSpeed| waiting_wire(w) != b,
        },
{
    match b {
        0x41 => Some(WaitingModeAndSpeed::FastestNormal),
        0x42 => Some(WaitingModeAndSpeed::FastestBlinking),
        0x43 => Some(WaitingModeAndSpeed::FastestSong1),
        0x44 => Some(WaitingModeAndSpeed::FastestSong2),
        0x45 => Some(WaitingModeAndSpeed::FastestSong3),
        0x51 => Some(WaitingModeAndSpeed::MiddleFastNormal),
        0x52 => Some(WaitingModeAndSpeed::MiddleFastBlinking),
        0x53 => Some(WaitingModeAndSpeed::MiddleFastSong1),
        0x54 => Some(WaitingModeAndSpeed::MiddleFastSong2),
        0x55 => Some(WaitingModeAndSpeed::MiddleFastSong3),
        0x61 => Some(WaitingModeAndSpeed::MiddleSlowNormal),
        0x62 => Some(WaitingModeAndSpeed::MiddleSlowBlinking),
        0x63 => Some(WaitingModeAndSpeed::MiddleSlowSong1),
        0x64 => Some(WaitingModeAndSpeed::MiddleSlowSong2),
        0x65 => Some(WaitingModeAndSpeed::MiddleSlowSong3),
        0x71 => Some(WaitingModeAndSpeed::SlowestNormal),
        0x72 => Some(WaitingModeAndSpeed::SlowestBlinking),
        0x73 => Some(WaitingModeAndSpeed::SlowestSong1),
        0x74 => Some(WaitingModeAndSpeed::SlowestSong2),
        0x75 => Some(WaitingModeAndSpeed::SlowestSong3),
        _ => None,
    }
}

/// Frames a page for the store, or refuses a message whose encoding
/// exceeds what one record holds.
pub fn encode_page(p: &Page) -> (r: Option<Vec<u8>>)
    ensures
        match r {
            Some(v) => v@ == page_record(*p) && v@.len() <= PAGE_RECORD_HEADER
                + MAX_MESSAGE_BYTES,
            None => encode_utf8(p.message@).len() > MAX_MESSAGE_BYTES,
        },
{
    let msg = p.message.as_str().as_bytes_vec();
    if msg.len() > MAX_MESSAGE_BYTES {
        return None;
    }
    let mut out: Vec<u8> = Vec::new();
    out.push(p.line);
    out.push(byte_of_char(p.id));
    out.push(p.leading.wire_byte());
    out.push(p.lagging.wire_byte());
    out.push(p.waiting_mode_and_speed.wire_byte());
    out.push(p.waiting_time.steps());
    out.push(msg.len() as u8);
    out.extend_from_slice(msg.as_slice());
    proof {
        assert(out@ =~= page_record(*p));
    }
    Some(out)
}

/// Recovers a page from its stored frame; `None` exactly when the
/// bytes do not parse as a page record. The returned id is the frame's
/// one id byte, so it always fits in one byte.
pub fn decode_page(bytes: &[u8]) -> (r: Option<Page>)
    ensures
        match r {
            Some(p) => bytes@ == page_record(p) && p.id as u32 <= 0xFF,
            None => !page_record_parses(bytes@),
        },
{
    if bytes.len() < PAGE_RECORD_HEADER {
        return None;
    }
    let line = bytes[0];
    let id = bytes[1] as char;
    let leading = match decode_leading(bytes[2]) {
        Some(l) => l,
        None => {
            return None;
        },
    };
    let lagging = match decode_lagging(bytes[3]) {
        Some(l) => l,
        None => {
            return None;
        },
    };
    let waiting_mode_and_speed = match decode_waiting(bytes[4]) {
        Some(w) => w,
        None => {
            return None;
        },
    };
    if bytes[5] > MAX_WAITING_TIME {
        return None;
    }
    let waiting_time = WaitingTime::new(bytes[5]);
    let mlen = bytes[6] as usize;
    if mlen != bytes.len() - PAGE_RECORD_HEADER {
        return None;
    }
    let msg_bytes = slice_to_vec(slice_subrange(bytes, PAGE_RECORD_HEADER, bytes.len()));
    proof {
        assert(msg_bytes@ =~= bytes@.skip(PAGE_RECORD_HEADER as int));
    }
    let message = match string_from_utf8(msg_bytes) {
        Some(s) => s,
        None => {
            return None;
        },
    };
    let p = Page { line, id, leading, lagging, waiting_mode_and_speed, waiting_time, message };
    proof {
        assert(bytes@ =~= page_record(p));
    }
    Some(p)
}

/// A page's stored frame parses back: what `encode_page` produces,
/// `decode_page` accepts.
pub proof fn lemma_page_record_parses(p: Page)
    requires
        encode_utf8(p.message@).len() <= MAX_MESSAGE_BYTES,
        p.waiting_time.value() <= MAX_WAITING_TIME,
    ensures
        page_record_parses(page_record(p)),
{
    let bytes = page_record(p);
    assert(leading_wire(p.leading) == bytes[2]);
    assert(lagging_wire(p.lagging) == bytes[3]);
    assert(waiting_wire(p.waiting_mode_and_speed) == bytes[4]);
    encode_utf8_valid_utf8(p.message@);
    assert(bytes.skip(PAGE_RECORD_HEADER as int) =~= encode_utf8(p.message@));
}

/// Two pages with the same stored frame agree on every field, as long
/// as both ids fit in the one byte the frame keeps for them.
pub proof fn lemma_page_record_injective(p: Page, q: Page)
    requires
        page_record(p) == page_record(q),
        p.id as u32 <= 0xFF,
        q.id as u32 <= 0xFF,
    ensures
        p.line == q.line,
        p.id == q.id,
        p.leading == q.leading,
        p.lagging == q.lagging,
        p.waiting_mode_and_speed == q.waiting_mode_and_speed,
        p.waiting_time == q.waiting_time,
        p.message@ == q.message@,
{
    let bp = page_record(p);
    let bq = page_record(q);
    assert(bp[0] == bq[0]);
    assert(bp[1] == bq[1]);
    assert(bp[2] == bq[2]);
    assert(bp[3] == bq[3]);
    assert(bp[4] == bq[4]);
    assert(bp[5] == bq[5]);
    assert((p.id as u32) as u8 == (q.id as u32) as u8);
    assert(p.id as u32 == q.id as u32);
    assert(p.id == q.id) by {
        vstd::utf8::char_u32_cast(p.id, p.id as u32);
        vstd::utf8::char_u32_cast(q.id, q.id as u32);
    }
    lemma_waiting_time_eq(p.waiting_time, q.waiting_time);
    assert(encode_utf8(p.message@) =~= bp.skip(7));
    assert(encode_utf8(q.message@) =~= bq.skip(7));
    encode_utf8_decode_utf8(p.message@);
    encode_utf8_decode_utf8(q.message@);
}

/// The seven fields of a bound, one byte each, in the wire order.
pub open spec fn datetime_fields(d: DateTime) -> Seq<u8> {
    seq![d.year, d.week, d.month, d.day, d.hour, d.minute, d.second]
}

/// The stored form of a schedule: id, both bounds, and the page list
/// in UTF-8.
pub open spec fn schedule_record(s: Schedule) -> Seq<u8> {
    seq![char_byte(s.id)] + datetime_fields(s.from) + datetime_fields(s.to) + seq![
        encode_utf8(s.pages@).len() as u8,
    ] + encode_utf8(s.pages@)
}

/// The bytes parse as a schedule record: a length byte that matches
/// and a page list that is valid UTF-8.
pub open spec fn schedule_record_parses(bytes: Seq<u8>) -> bool {
    &&& bytes.len() >= SCHEDULE_RECORD_HEADER
    &&& bytes[15] == bytes.len() - SCHEDULE_RECORD_HEADER
    &&& valid_utf8(bytes.skip(SCHEDULE_RECORD_HEADER as int))
}

/// Frames a schedule for the store, or refuses a page list whose
/// encoding exceeds what one record holds.
pub fn encode_schedule(s: &Schedule) -> (r: Option<Vec<u8>>)
    ensures
        match r {
            Some(v) => v@ == schedule_record(*s) && v@.len() <= SCHEDULE_RECORD_HEADER
                + MAX_PAGES_BYTES,
            None => encode_utf8(s.pages@).len() > MAX_PAGES_BYTES,
        },
{
    let pages = s.pages.as_str().as_bytes_vec();
    if pages.len() > MAX_PAGES_BYTES {
        return None;
    }
    let mut out: Vec<u8> = Vec::new();
    out.push(byte_of_char(s.id));
    out.push(s.from.year);
    out.push(s.from.week);
    out.push(s.from.month);
    out.push(s.from.day);
    out.push(s.from.hour);
    out.push(s.from.minute);
    out.push(s.from.second);
    out.push(s.to.year);
    out.push(s.to.week);
    out.push(s.to.month);
    out.push(s.to.day);
    out.push(s.to.hour);
    out.push(s.to.minute);
    out.push(s.to.second);
    out.push(pages.len() as u8);
    out.extend_from_slice(pages.as_slice());
    proof {
        assert(out@ =~= schedule_record(*s));
    }
    Some(out)
}

/// Recovers a schedule from its stored frame; `None` exactly when the
/// bytes do not parse as a schedule record. The returned id is the
/// frame's one id byte, so it always fits in one byte.
pub fn decode_schedule(bytes: &[u8]) -> (r: Option<Schedule>)
    ensures
        match r {
            Some(s) => bytes@ == schedule_record(s) && s.id as u32 <= 0xFF,
            None => !schedule_record_parses(bytes@),
        },
{
    if bytes.len() < SCHEDULE_RECORD_HEADER {
        return None;
    }
    let id = bytes[0] as char;
    let from = DateTime {
        year: bytes[1],
        week: bytes[2],
        month: bytes[3],
        day: bytes[4],
        hour: bytes[5],
        minute: bytes[6],
        second: bytes[7],
    };
    let to = DateTime {
        year: bytes[8],
        week: bytes[9],
        month: bytes[10],
        day: bytes[11],
        hour: bytes[12],
        minute: bytes[13],
        second: bytes[14],
    };
    let plen = bytes[15] as usize;
    if plen != bytes.len() - SCHEDULE_RECORD_HEADER {
        return None;
    }
    let page_bytes = slice_to_vec(slice_subrange(bytes, SCHEDULE_RECORD_HEADER, bytes.len()));
    proof {
        assert(page_bytes@ =~= bytes@.skip(SCHEDULE_RECORD_HEADER as int));
    }
    let pages = match string_from_utf8(page_bytes) {
        Some(s) => s,
        None => {
            return None;
        },
    };
    let s = Schedule { id, from, to, pages };
    proof {
        assert(bytes@ =~= schedule_record(s));
    }
    Some(s)
}

/// A schedule's stored frame parses back: what `encode_schedule`
/// produces, `decode_schedule` accepts.
pub proof fn lemma_schedule_record_parses(s: Schedule)
    requires
        encode_utf8(s.pages@).len() <= MAX_PAGES_BYTES,
    ensures
        schedule_record_parses(schedule_record(s)),
{
    let bytes = schedule_record(s);
    encode_utf8_valid_utf8(s.pages@);
    assert(bytes.skip(SCHEDULE_RECORD_HEADER as int) =~= encode_utf8(s.pages@));
}

/// Two schedules with the same stored frame agree on every field, as
/// long as both ids fit in the one byte the frame keeps for them.
pub proof fn lemma_schedule_record_injective(s: Schedule, t: Schedule)
    requires
        schedule_record(s) == schedule_record(t),
        s.id as u32 <= 0xFF,
        t.id as u32 <= 0xFF,
    ensures
        s.id == t.id,
        s.from == t.from,
        s.to == t.to,
        s.pages@ == t.pages@,
{
    let bs = schedule_record(s);
    let bt = schedule_record(t);
    assert(bs[0] == char_byte(s.id) && bt[0] == char_byte(t.id));
    assert((s.id as u32) as u8 == (t.id as u32) as u8);
    assert(s.id == t.id) by {
        vstd::utf8::char_u32_cast(s.id, s.id as u32);
        vstd::utf8::char_u32_cast(t.id, t.id as u32);
    }
    assert(bs.subrange(1, 8) =~= datetime_fields(s.from));
    assert(bt.subrange(1, 8) =~= datetime_fields(t.from));
    assert(bs.subrange(8, 15) =~= datetime_fields(s.to));
    assert(bt.subrange(8, 15) =~= datetime_fields(t.to));
    assert(datetime_fields(s.from) =~= datetime_fields(t.from));
    assert(datetime_fields(s.to) =~= datetime_fields(t.to));
    assert(s.from.year == datetime_fields(s.from)[0] && t.from.year == datetime_fields(t.from)[0]);
    assert(s.from == t.from);
    assert(s.to == t.to);
    assert(encode_utf8(s.pages@) =~= bs.skip(16));
    assert(encode_utf8(t.pages@) =~= bt.skip(16));
    encode_utf8_decode_utf8(s.pages@);
    encode_utf8_decode_utf8(t.pages@);
}

} // verus!
