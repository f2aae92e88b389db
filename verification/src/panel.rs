//! The device controller: the single owner of the serial transport and
//! of the two persistent stores, and the only component that touches
//! them. On every mutation it validates the id first, then encodes and
//! sends the command, and only then persists the record; a crash
//! between the send and the persist leaves the store stale until the
//! next `init` resend, which is the accepted inconsistency window.

use vstd::prelude::*;

use crate::codec;
use crate::codec::char_byte;
use crate::codec::envelope;
use crate::codec::set_id_frame;
use crate::codec::ENVELOPE_OVERHEAD;
use crate::codec::MAX_FRAME_BYTES;
use crate::datetime::DateTime;
use crate::delete::delete_all_payload;
use crate::delete::delete_page_payload;
use crate::delete::delete_schedule_payload;
use crate::delete::DeleteAll;
use crate::delete::DeletePage;
use crate::delete::DeleteSchedule;
use crate::error::Error;
use crate::error::StorageFault;
use crate::flash::FlashMedium;
use crate::page::page_payload;
use crate::page::Page;
use crate::records;
use crate::records::page_record;
use crate::records::page_record_parses;
use crate::records::schedule_record;
use crate::records::schedule_record_parses;
use crate::schedule::schedule_payload;
use crate::schedule::Schedule;
use crate::store::free_space_clear;
use crate::store::map_lookup;
use crate::store::Store;
use crate::transport::Transport;

verus! {

/// The bus address every command is sent to.
pub const DEFAULT_PANEL_ID: u8 = 1;

/// A page id names one of the panel's 26 page slots.
pub open spec fn page_id_ok(id: char) -> bool {
    0x41 <= id as u32 <= 0x5A  // 'A' through 'Z'
}

/// A schedule id names one of the panel's 5 schedule slots.
pub open spec fn schedule_id_ok(id: char) -> bool {
    0x41 <= id as u32 <= 0x45  // 'A' through 'E'
}

/// Checks a page id: `A` through `Z`.
pub fn is_page_id_valid(id: char) -> (r: bool)
    ensures
        r == page_id_ok(id),
{
    let u = id as u32;
    0x41 <= u && u <= 0x5A
}

/// Checks a schedule id: `A` through `E`.
pub fn is_schedule_id_valid(id: char) -> (r: bool)
    ensures
        r == schedule_id_ok(id),
{
    let u = id as u32;
    0x41 <= u && u <= 0x45
}

/// The page is a live record of the map under some key.
pub open spec fn page_listed(m: Map<u8, Option<Seq<u8>>>, p: Page) -> bool {
    exists|k: u8| map_lookup(m, k) == Some(page_record(p))
}

/// Every page in the listing is a live record of the map.
pub open spec fn pages_listed(m: Map<u8, Option<Seq<u8>>>, v: Seq<Page>) -> bool {
    forall|i: int| 0 <= i < v.len() ==> page_listed(m, #[trigger] v[i])
}

/// The key's live record is the stored frame of some listed page.
pub open spec fn key_in_pages(m: Map<u8, Option<Seq<u8>>>, v: Seq<Page>, k: u8) -> bool {
    exists|i: int| 0 <= i < v.len() && Some(page_record(v[i])) == map_lookup(m, k)
}

/// Every live record of the map appears in the listing.
pub open spec fn pages_complete(m: Map<u8, Option<Seq<u8>>>, v: Seq<Page>) -> bool {
    forall|k: u8| #![trigger map_lookup(m, k)]
        map_lookup(m, k) is Some ==> key_in_pages(m, v, k)
}

/// The listing lines up one-to-one with a duplicate-free key sequence:
/// position `i` holds exactly the live record of key `ks[i]`. No key,
/// and hence no slot, is listed twice.
pub open spec fn pages_keyed(m: Map<u8, Option<Seq<u8>>>, v: Seq<Page>, ks: Seq<u8>) -> bool {
    &&& ks.len() == v.len()
    &&& forall|i: int, j: int| 0 <= i < j < ks.len() ==> ks[i] != ks[j]
    &&& forall|i: int|
        0 <= i < ks.len() ==> map_lookup(m, #[trigger] ks[i]) == Some(page_record(v[i]))
}

/// The schedule is a live record of the map under some key.
pub open spec fn schedule_listed(m: Map<u8, Option<Seq<u8>>>, s: Schedule) -> bool {
    exists|k: u8| map_lookup(m, k) == Some(schedule_record(s))
}

/// Every schedule in the listing is a live record of the map.
pub open spec fn schedules_listed(m: Map<u8, Option<Seq<u8>>>, v: Seq<Schedule>) -> bool {
    forall|i: int| 0 <= i < v.len() ==> schedule_listed(m, #[trigger] v[i])
}

/// The key's live record is the stored frame of some listed schedule.
pub open spec fn key_in_schedules(m: Map<u8, Option<Seq<u8>>>, v: Seq<Schedule>, k: u8) -> bool {
    exists|i: int| 0 <= i < v.len() && Some(schedule_record(v[i])) == map_lookup(m, k)
}

/// Every live record of the map appears in the listing.
pub open spec fn schedules_complete(m: Map<u8, Option<Seq<u8>>>, v: Seq<Schedule>) -> bool {
    forall|k: u8| #![trigger map_lookup(m, k)]
        map_lookup(m, k) is Some ==> key_in_schedules(m, v, k)
}

/// The listing lines up one-to-one with a duplicate-free key sequence:
/// position `i` holds exactly the live record of key `ks[i]`. No key,
/// and hence no slot, is listed twice.
pub open spec fn schedules_keyed(
    m: Map<u8, Option<Seq<u8>>>,
    v: Seq<Schedule>,
    ks: Seq<u8>,
) -> bool {
    &&& ks.len() == v.len()
    &&& forall|i: int, j: int| 0 <= i < j < ks.len() ==> ks[i] != ks[j]
    &&& forall|i: int|
        0 <= i < ks.len() ==> map_lookup(m, #[trigger] ks[i]) == Some(schedule_record(v[i]))
}

/// Some frame sent at or after position `from` is the command of the
/// page stored live under key `k`.
pub open spec fn page_key_replayed(
    m: Map<u8, Option<Seq<u8>>>,
    sent: Seq<Seq<u8>>,
    from: int,
    panel_id: u8,
    k: u8,
) -> bool {
    exists|j: int, p: Page|
        from <= j < sent.len() && sent[j] == envelope(panel_id, page_payload(p)) && map_lookup(
            m,
            k,
        ) == Some(page_record(p))
}

/// Some frame sent at or after position `from` is the command of the
/// schedule stored live under key `k`.
pub open spec fn schedule_key_replayed(
    m: Map<u8, Option<Seq<u8>>>,
    sent: Seq<Seq<u8>>,
    from: int,
    panel_id: u8,
    k: u8,
) -> bool {
    exists|j: int, s: Schedule|
        from <= j < sent.len() && sent[j] == envelope(panel_id, schedule_payload(s)) && map_lookup(
            m,
            k,
        ) == Some(schedule_record(s))
}

/// What every exit of `init` can say of the frames once the set-id
/// frame went out: the sent history up to `base` is the old history
/// plus that frame, so the old history is a prefix and position
/// `base - 1` holds the set-id frame.
proof fn lemma_init_prefix(sent: Seq<Seq<u8>>, old_sent: Seq<Seq<u8>>, base: int, panel_id: u8)
    requires
        base == old_sent.len() + 1,
        base <= sent.len(),
        sent.subrange(0, base) == old_sent.push(set_id_frame(panel_id)),
    ensures
        sent.subrange(0, old_sent.len() as int) == old_sent,
        sent[old_sent.len() as int] == set_id_frame(panel_id),
{
    assert(sent.subrange(0, old_sent.len() as int) =~= old_sent);
    assert(sent[old_sent.len() as int] == sent.subrange(0, base)[old_sent.len() as int]);
    assert(old_sent.push(set_id_frame(panel_id))[old_sent.len() as int] == set_id_frame(panel_id));
}

/// The controller for one LED panel: the transport to it and the two
/// stores that keep its content durable.
pub struct Panel<F: FlashMedium, T: Transport> {
    /// The serial link to the panel.
    pub transport: T,
    /// Persisted pages, keyed by page id.
    pub page_store: Store<F>,
    /// Persisted schedules, keyed by schedule id.
    pub schedule_store: Store<F>,
    /// The bus address commands are sent to.
    pub panel_id: u8,
}

impl<F: FlashMedium, T: Transport> Panel<F, T> {
    /// The stored record bytes for a page id, when it has a live one.
    pub open spec fn page_at(&self, id: char) -> Option<Seq<u8>> {
        self.page_store.lookup(char_byte(id))
    }

    /// The stored record bytes for a schedule id, when it has a live
    /// one.
    pub open spec fn schedule_at(&self, id: char) -> Option<Seq<u8>> {
        self.schedule_store.lookup(char_byte(id))
    }

    /// The two stores hold the same records as in `other`.
    pub open spec fn stores_match(&self, other: &Self) -> bool {
        &&& self.page_store.flash.bytes() == other.page_store.flash.bytes()
        &&& self.schedule_store.flash.bytes() == other.schedule_store.flash.bytes()
    }

    /// A controller over the given transport and the two flash
    /// regions, one per entity kind. Whatever records the regions
    /// already hold are the panel's persisted content.
    pub fn new(transport: T, page_flash: F, schedule_flash: F) -> (r: Self)
        ensures
            r.transport == transport,
            r.page_store.flash == page_flash,
            r.schedule_store.flash == schedule_flash,
            r.panel_id == DEFAULT_PANEL_ID,
    {
        Panel {
            transport,
            page_store: Store::new(page_flash),
            schedule_store: Store::new(schedule_flash),
            panel_id: DEFAULT_PANEL_ID,
        }
    }

    /// Sends the page to the device, then persists it. The id is
    /// checked before any I/O: an invalid one is rejected with no side
    /// effect at all. A transport failure leaves the store untouched;
    /// a persist failure comes after the device already shows the new
    /// content.
    pub fn set_page(&mut self, page_id: char, page: Page) -> (r: Result<(), Error>)
        ensures
            (page_id_ok(page_id) && page_payload(page).len() + ENVELOPE_OVERHEAD
                > MAX_FRAME_BYTES) ==> (r matches Err(e) && e == Error::Internal),
            match r {
                Ok(u) => {
                    &&& page_id_ok(page_id)
                    &&& final(self).transport.sent() == old(self).transport.sent().push(
                        envelope(old(self).panel_id, page_payload(page)),
                    )
                    &&& final(self).page_store.wf()
                    &&& final(self).page_store.raw() == old(self).page_store.raw().insert(
                        char_byte(page_id),
                        Some(page_record(page)),
                    )
                    &&& final(self).page_at(page_id) == Some(page_record(page))
                    &&& final(self).schedule_store == old(self).schedule_store
                    &&& final(self).panel_id == old(self).panel_id
                },
                Err(e) => {
                    &&& (e == Error::BadRequest <==> !page_id_ok(page_id))
                    &&& (!page_id_ok(page_id) ==> *final(self) == *old(self))
                    &&& (e == Error::Internal ==> page_payload(page).len() + ENVELOPE_OVERHEAD
                        > MAX_FRAME_BYTES && *final(self) == *old(self))
                    &&& (e matches Error::Transport(_) ==> final(self).stores_match(&old(self))
                        && final(self).panel_id == old(self).panel_id && (final(self).transport.sent() == old(self).transport.sent() || final(self).transport.sent() == old(self).transport.sent().push(
                        envelope(old(self).panel_id, page_payload(page)),
                    )))
                    &&& (e matches Error::Storage(_) ==> final(self).transport.sent() == old(self).transport.sent().push(envelope(old(self).panel_id, page_payload(page))))
                    &&& e != Error::Storage(StorageFault::ItemTooBig)
                    &&& e != Error::NotFound
                },
            },
    {
        if !is_page_id_valid(page_id) {
            return Err(Error::BadRequest);
        }
        let frame = match page.command(self.panel_id) {
            Ok(f) => f,
            Err(e) => {
                return Err(e);
            },
        };
        match self.transport.send(frame.as_slice()) {
            Ok(u) => {},
            Err(f) => {
                return Err(Error::Transport(f));
            },
        }
        let record = match records::encode_page(&page) {
            Some(v) => v,
            None => {
                // unreachable: a message that fits the 64-byte frame is
                // far below the record's capacity
                proof {
                    assert(crate::codec::dec_digits(page.line).len() >= 1);
                    assert(crate::text::escaped(page.message@).len() + 24 <= MAX_FRAME_BYTES
                        - ENVELOPE_OVERHEAD);
                    crate::text::lemma_escaped_at_least_utf8(page.message@);
                    assert(false);
                }
                return Err(Error::Storage(StorageFault::ItemTooBig));
            },
        };
        match self.page_store.write(codec::byte_of_char(page_id), record.as_slice()) {
            Ok(u) => Ok(()),
            Err(f) => Err(Error::Storage(f)),
        }
    }

    /// Returns the persisted page for the id, or `None` when the slot
    /// is empty. The id is checked before any I/O.
    pub fn get_page(&mut self, page_id: char) -> (r: Result<Option<Page>, Error>)
        ensures
            final(self).transport == old(self).transport,
            final(self).stores_match(&old(self)),
            final(self).panel_id == old(self).panel_id,
            match r {
                Ok(v) => {
                    &&& page_id_ok(page_id)
                    &&& old(self).page_store.wf()
                    &&& match v {
                        Some(p) => old(self).page_at(page_id) == Some(page_record(p)) && p.id
                            as u32 <= 0xFF,
                        None => old(self).page_at(page_id) is None,
                    }
                },
                Err(e) => {
                    &&& (e == Error::BadRequest <==> !page_id_ok(page_id))
                    &&& (e == Error::Storage(StorageFault::Corrupted) ==> !old(self).page_store.wf() || (old(self).page_at(page_id) matches Some(b)
                        && !page_record_parses(b)))
                    &&& (e matches Error::Storage(f) ==> f == StorageFault::Io || f
                        == StorageFault::Corrupted)
                    &&& !(e matches Error::Transport(_))
                    &&& e != Error::Internal
                    &&& e != Error::NotFound
                },
            },
    {
        if !is_page_id_valid(page_id) {
            return Err(Error::BadRequest);
        }
        let found = match self.page_store.read(codec::byte_of_char(page_id)) {
            Ok(v) => v,
            Err(f) => {
                return Err(Error::Storage(f));
            },
        };
        match found {
            Some(bytes) => {
                match records::decode_page(bytes.as_slice()) {
                    Some(p) => Ok(Some(p)),
                    None => Err(Error::Storage(StorageFault::Corrupted)),
                }
            },
            None => Ok(None),
        }
    }

    /// Sends the delete command for the page, then tombstones its
    /// record. The id is checked before any I/O.
    pub fn delete_page(&mut self, page_id: char) -> (r: Result<(), Error>)
        ensures
            match r {
                Ok(u) => {
                    &&& page_id_ok(page_id)
                    &&& final(self).transport.sent() == old(self).transport.sent().push(
                        envelope(
                            old(self).panel_id,
                            delete_page_payload(
                                DeletePage { line: crate::page::DEFAULT_LINE, page_id },
                            ),
                        ),
                    )
                    &&& final(self).page_store.wf()
                    &&& final(self).page_store.raw() == old(self).page_store.raw().insert(
                        char_byte(page_id),
                        None,
                    )
                    &&& final(self).page_at(page_id) is None
                    &&& final(self).schedule_store == old(self).schedule_store
                    &&& final(self).panel_id == old(self).panel_id
                },
                Err(e) => {
                    &&& (e == Error::BadRequest <==> !page_id_ok(page_id))
                    &&& (!page_id_ok(page_id) ==> *final(self) == *old(self))
                    &&& (e matches Error::Transport(_) ==> final(self).stores_match(&old(self))
                        && (final(self).transport.sent() == old(self).transport.sent() || final(self).transport.sent() == old(self).transport.sent().push(
                        envelope(
                            old(self).panel_id,
                            delete_page_payload(
                                DeletePage { line: crate::page::DEFAULT_LINE, page_id },
                            ),
                        ),
                    )))
                    &&& e != Error::NotFound
                    &&& e != Error::Internal
                },
            },
    {
        if !is_page_id_valid(page_id) {
            return Err(Error::BadRequest);
        }
        let frame = DeletePage::new(page_id).command(self.panel_id);
        match self.transport.send(frame.as_slice()) {
            Ok(u) => {},
            Err(f) => {
                return Err(Error::Transport(f));
            },
        }
        match self.page_store.delete(codec::byte_of_char(page_id)) {
            Ok(u) => Ok(()),
            Err(f) => Err(Error::Storage(f)),
        }
    }

    /// Sends the schedule to the device, then persists it. The id is
    /// checked before any I/O, as for pages.
    pub fn set_schedule(&mut self, schedule_id: char, schedule: Schedule) -> (r: Result<
        (),
        Error,
    >)
        requires
            schedule.from.two_digit(),
            schedule.to.two_digit(),
        ensures
            (schedule_id_ok(schedule_id) && schedule_payload(schedule).len() + ENVELOPE_OVERHEAD
                > MAX_FRAME_BYTES) ==> (r matches Err(e) && e == Error::Internal),
            match r {
                Ok(u) => {
                    &&& schedule_id_ok(schedule_id)
                    &&& final(self).transport.sent() == old(self).transport.sent().push(
                        envelope(old(self).panel_id, schedule_payload(schedule)),
                    )
                    &&& final(self).schedule_store.wf()
                    &&& final(self).schedule_store.raw() == old(self).schedule_store.raw().insert(
                        char_byte(schedule_id),
                        Some(schedule_record(schedule)),
                    )
                    &&& final(self).schedule_at(schedule_id) == Some(schedule_record(schedule))
                    &&& final(self).page_store == old(self).page_store
                    &&& final(self).panel_id == old(self).panel_id
                },
                Err(e) => {
                    &&& (e == Error::BadRequest <==> !schedule_id_ok(schedule_id))
                    &&& (!schedule_id_ok(schedule_id) ==> *final(self) == *old(self))
                    &&& (e == Error::Internal ==> schedule_payload(schedule).len()
                        + ENVELOPE_OVERHEAD > MAX_FRAME_BYTES && *final(self) == *old(self))
                    &&& (e matches Error::Transport(_) ==> final(self).stores_match(&old(self))
                        && (final(self).transport.sent() == old(self).transport.sent() || final(self).transport.sent() == old(self).transport.sent().push(
                        envelope(old(self).panel_id, schedule_payload(schedule)),
                    )))
                    &&& (e matches Error::Storage(_) ==> final(self).transport.sent() == old(self).transport.sent().push(
                        envelope(old(self).panel_id, schedule_payload(schedule)),
                    ))
                    &&& e != Error::Storage(StorageFault::ItemTooBig)
                    &&& e != Error::NotFound
                },
            },
    {
        if !is_schedule_id_valid(schedule_id) {
            return Err(Error::BadRequest);
        }
        let frame = match schedule.command(self.panel_id) {
            Ok(f) => f,
            Err(e) => {
                return Err(e);
            },
        };
        match self.transport.send(frame.as_slice()) {
            Ok(u) => {},
            Err(f) => {
                return Err(Error::Transport(f));
            },
        }
        let record = match records::encode_schedule(&schedule) {
            Some(v) => v,
            None => {
                // unreachable: a page list that fits the 64-byte frame
                // is far below the record's capacity
                proof {
                    assert(schedule.pages@.len() + 32 <= MAX_FRAME_BYTES - ENVELOPE_OVERHEAD);
                    crate::text::lemma_utf8_at_most_four_per_char(schedule.pages@);
                    assert(false);
                }
                return Err(Error::Storage(StorageFault::ItemTooBig));
            },
        };
        match self.schedule_store.write(codec::byte_of_char(schedule_id), record.as_slice()) {
            Ok(u) => Ok(()),
            Err(f) => Err(Error::Storage(f)),
        }
    }

    /// Returns the persisted schedule for the id, or `None` when the
    /// slot is empty. The id is checked before any I/O.
    pub fn get_schedule(&mut self, schedule_id: char) -> (r: Result<Option<Schedule>, Error>)
        ensures
            final(self).transport == old(self).transport,
            final(self).stores_match(&old(self)),
            final(self).panel_id == old(self).panel_id,
            match r {
                Ok(v) => {
                    &&& schedule_id_ok(schedule_id)
                    &&& old(self).schedule_store.wf()
                    &&& match v {
                        Some(s) => old(self).schedule_at(schedule_id) == Some(schedule_record(s))
                            && s.id as u32 <= 0xFF,
                        None => old(self).schedule_at(schedule_id) is None,
                    }
                },
                Err(e) => {
                    &&& (e == Error::BadRequest <==> !schedule_id_ok(schedule_id))
                    &&& (e == Error::Storage(StorageFault::Corrupted) ==> !old(self).schedule_store.wf() || (old(self).schedule_at(schedule_id) matches Some(b)
                        && !schedule_record_parses(b)))
                    &&& (e matches Error::Storage(f) ==> f == StorageFault::Io || f
                        == StorageFault::Corrupted)
                    &&& !(e matches Error::Transport(_))
                    &&& e != Error::Internal
                    &&& e != Error::NotFound
                },
            },
    {
        if !is_schedule_id_valid(schedule_id) {
            return Err(Error::BadRequest);
        }
        let found = match self.schedule_store.read(codec::byte_of_char(schedule_id)) {
            Ok(v) => v,
            Err(f) => {
                return Err(Error::Storage(f));
            },
        };
        match found {
            Some(bytes) => {
                match records::decode_schedule(bytes.as_slice()) {
                    Some(s) => Ok(Some(s)),
                    None => Err(Error::Storage(StorageFault::Corrupted)),
                }
            },
            None => Ok(None),
        }
    }

    /// Sends the delete command for the schedule, then tombstones its
    /// record. The id is checked before any I/O.
    pub fn delete_schedule(&mut self, schedule_id: char) -> (r: Result<(), Error>)
        ensures
            match r {
                Ok(u) => {
                    &&& schedule_id_ok(schedule_id)
                    &&& final(self).transport.sent() == old(self).transport.sent().push(
                        envelope(
                            old(self).panel_id,
                            delete_schedule_payload(DeleteSchedule { schedule_id }),
                        ),
                    )
                    &&& final(self).schedule_store.wf()
                    &&& final(self).schedule_store.raw() == old(self).schedule_store.raw().insert(
                        char_byte(schedule_id),
                        None,
                    )
                    &&& final(self).schedule_at(schedule_id) is None
                    &&& final(self).page_store == old(self).page_store
                    &&& final(self).panel_id == old(self).panel_id
                },
                Err(e) => {
                    &&& (e == Error::BadRequest <==> !schedule_id_ok(schedule_id))
                    &&& (!schedule_id_ok(schedule_id) ==> *final(self) == *old(self))
                    &&& (e matches Error::Transport(_) ==> final(self).stores_match(&old(self))
                        && (final(self).transport.sent() == old(self).transport.sent() || final(self).transport.sent() == old(self).transport.sent().push(
                        envelope(
                            old(self).panel_id,
                            delete_schedule_payload(DeleteSchedule { schedule_id }),
                        ),
                    )))
                    &&& e != Error::NotFound
                    &&& e != Error::Internal
                },
            },
    {
        if !is_schedule_id_valid(schedule_id) {
            return Err(Error::BadRequest);
        }
        let frame = DeleteSchedule::new(schedule_id).command(self.panel_id);
        match self.transport.send(frame.as_slice()) {
            Ok(u) => {},
            Err(f) => {
                return Err(Error::Transport(f));
            },
        }
        match self.schedule_store.delete(codec::byte_of_char(schedule_id)) {
            Ok(u) => Ok(()),
            Err(f) => Err(Error::Storage(f)),
        }
    }

    /// Returns every persisted page: one per page id that has a live
    /// record, in scan order, which carries no meaning.
    pub fn get_pages(&mut self) -> (r: Result<Vec<Page>, Error>)
        ensures
            final(self).transport == old(self).transport,
            final(self).stores_match(&old(self)),
            final(self).panel_id == old(self).panel_id,
            match r {
                Ok(v) => {
                    &&& old(self).page_store.wf()
                    &&& pages_listed(old(self).page_store.raw(), v@)
                    &&& pages_complete(old(self).page_store.raw(), v@)
                    &&& exists|ks: Seq<u8>| pages_keyed(old(self).page_store.raw(), v@, ks)
                },
                Err(e) => {
                    &&& (e == Error::Storage(StorageFault::Corrupted) ==> !old(self).page_store.wf() || (exists|k: u8|
                        #[trigger] map_lookup(old(self).page_store.raw(), k) matches Some(b)
                            && !page_record_parses(b)))
                    &&& (e matches Error::Storage(f) ==> f == StorageFault::Io || f
                        == StorageFault::Corrupted)
                    &&& (e matches Error::Storage(_))
                },
            },
    {
        let items = match self.page_store.read_all() {
            Ok(v) => v,
            Err(f) => {
                return Err(Error::Storage(f));
            },
        };
        let ghost raw = old(self).page_store.raw();
        proof {
            assert forall|k: u8| map_lookup(raw, k) is Some implies exists|j: int|
                0 <= j < items@.len() && (#[trigger] items@[j]).0 == k by {
                assert(old(self).page_store.lookup(k) is Some);
            }
        }
        let mut out: Vec<Page> = Vec::new();
        let mut i: usize = 0;
        while i < items.len()
            invariant
                self.transport == old(self).transport,
                self.stores_match(&old(self)),
                self.panel_id == old(self).panel_id,
                raw == old(self).page_store.raw(),
                i <= items@.len(),
                out@.len() == i,
                forall|j: int, l: int|
                    0 <= j < l < items@.len() ==> items@[j].0 != items@[l].0,
                forall|j: int|
                    0 <= j < items@.len() ==> map_lookup(raw, #[trigger] items@[j].0) == Some(
                        items@[j].1@,
                    ),
                forall|k: u8|
                    map_lookup(raw, k) is Some ==> exists|j: int|
                        0 <= j < items@.len() && (#[trigger] items@[j]).0 == k,
                forall|j: int|
                    0 <= j < i ==> page_record(#[trigger] out@[j]) == items@[j].1@,
            decreases items@.len() - i,
        {
            let page = match records::decode_page(items[i].1.as_slice()) {
                Some(p) => p,
                None => {
                    proof {
                        assert(map_lookup(raw, items@[i as int].0) matches Some(b)
                            && !page_record_parses(b));
                    }
                    return Err(Error::Storage(StorageFault::Corrupted));
                },
            };
            out.push(page);
            i = i + 1;
        }
        proof {
            let m = old(self).page_store.raw();
            assert forall|j: int| 0 <= j < out@.len() implies page_listed(
                m,
                #[trigger] out@[j],
            ) by {
                assert(map_lookup(m, items@[j].0) == Some(page_record(out@[j])));
            }
            assert forall|k: u8| #![trigger map_lookup(m, k)]
                map_lookup(m, k) is Some implies key_in_pages(m, out@, k) by {
                let j = choose|j: int| 0 <= j < items@.len() && (#[trigger] items@[j]).0 == k;
                assert(0 <= j < out@.len() && Some(page_record(out@[j])) == map_lookup(m, k));
            }
            let ks = Seq::new(items@.len(), |i: int| items@[i].0);
            assert forall|i: int, j: int| 0 <= i < j < ks.len() implies ks[i] != ks[j] by {
                assert(ks[i] == items@[i].0 && ks[j] == items@[j].0);
            }
            assert forall|i: int| 0 <= i < ks.len() implies map_lookup(m, #[trigger] ks[i])
                == Some(page_record(out@[i])) by {
                assert(ks[i] == items@[i].0);
            }
            assert(pages_keyed(m, out@, ks));
        }
        Ok(out)
    }

    /// Returns every persisted schedule: one per schedule id that has
    /// a live record, in scan order, which carries no meaning.
    pub fn get_schedules(&mut self) -> (r: Result<Vec<Schedule>, Error>)
        ensures
            final(self).transport == old(self).transport,
            final(self).stores_match(&old(self)),
            final(self).panel_id == old(self).panel_id,
            match r {
                Ok(v) => {
                    &&& old(self).schedule_store.wf()
                    &&& schedules_listed(old(self).schedule_store.raw(), v@)
                    &&& schedules_complete(old(self).schedule_store.raw(), v@)
                    &&& exists|ks: Seq<u8>|
                        schedules_keyed(old(self).schedule_store.raw(), v@, ks)
                },
                Err(e) => {
                    &&& (e == Error::Storage(StorageFault::Corrupted) ==> !old(self).schedule_store.wf() || (exists|k: u8|
                        #[trigger] map_lookup(old(self).schedule_store.raw(), k) matches Some(b)
                            && !schedule_record_parses(b)))
                    &&& (e matches Error::Storage(f) ==> f == StorageFault::Io || f
                        == StorageFault::Corrupted)
                    &&& (e matches Error::Storage(_))
                },
            },
    {
        let items = match self.schedule_store.read_all() {
            Ok(v) => v,
            Err(f) => {
                return Err(Error::Storage(f));
            },
        };
        let ghost raw = old(self).schedule_store.raw();
        proof {
            assert forall|k: u8| map_lookup(raw, k) is Some implies exists|j: int|
                0 <= j < items@.len() && (#[trigger] items@[j]).0 == k by {
                assert(old(self).schedule_store.lookup(k) is Some);
            }
        }
        let mut out: Vec<Schedule> = Vec::new();
        let mut i: usize = 0;
        while i < items.len()
            invariant
                self.transport == old(self).transport,
                self.stores_match(&old(self)),
                self.panel_id == old(self).panel_id,
                raw == old(self).schedule_store.raw(),
                i <= items@.len(),
                out@.len() == i,
                forall|j: int, l: int|
                    0 <= j < l < items@.len() ==> items@[j].0 != items@[l].0,
                forall|j: int|
                    0 <= j < items@.len() ==> map_lookup(raw, #[trigger] items@[j].0) == Some(
                        items@[j].1@,
                    ),
                forall|k: u8|
                    map_lookup(raw, k) is Some ==> exists|j: int|
                        0 <= j < items@.len() && (#[trigger] items@[j]).0 == k,
                forall|j: int|
                    0 <= j < i ==> schedule_record(#[trigger] out@[j]) == items@[j].1@,
            decreases items@.len() - i,
        {
            let schedule = match records::decode_schedule(items[i].1.as_slice()) {
                Some(s) => s,
                None => {
                    proof {
                        assert(map_lookup(raw, items@[i as int].0) matches Some(b)
                            && !schedule_record_parses(b));
                    }
                    return Err(Error::Storage(StorageFault::Corrupted));
                },
            };
            out.push(schedule);
            i = i + 1;
        }
        proof {
            let m = old(self).schedule_store.raw();
            assert forall|j: int| 0 <= j < out@.len() implies schedule_listed(
                m,
                #[trigger] out@[j],
            ) by {
                assert(map_lookup(m, items@[j].0) == Some(schedule_record(out@[j])));
            }
            assert forall|k: u8| #![trigger map_lookup(m, k)]
                map_lookup(m, k) is Some implies key_in_schedules(m, out@, k) by {
                let j = choose|j: int| 0 <= j < items@.len() && (#[trigger] items@[j]).0 == k;
                assert(0 <= j < out@.len() && Some(schedule_record(out@[j])) == map_lookup(m, k));
            }
            let ks = Seq::new(items@.len(), |i: int| items@[i].0);
            assert forall|i: int, j: int| 0 <= i < j < ks.len() implies ks[i] != ks[j] by {
                assert(ks[i] == items@[i].0 && ks[j] == items@[j].0);
            }
            assert forall|i: int| 0 <= i < ks.len() implies map_lookup(m, #[trigger] ks[i])
                == Some(schedule_record(out@[i])) by {
                assert(ks[i] == items@[i].0);
            }
            assert(schedules_keyed(m, out@, ks));
        }
        Ok(out)
    }

    /// One of the frames `init` may replay after its `set_id` frame:
    /// the command of a persisted page or of a persisted schedule.
    pub open spec fn replay_frame(&self, frame: Seq<u8>) -> bool {
        ||| exists|k: u8, p: Page|
            map_lookup(self.page_store.raw(), k) == Some(page_record(p)) && frame == envelope(
                self.panel_id,
                page_payload(p),
            )
        ||| exists|k: u8, s: Schedule|
            map_lookup(self.schedule_store.raw(), k) == Some(schedule_record(s)) && frame
                == envelope(self.panel_id, schedule_payload(s))
    }

    /// Assigns the panel its bus address and replays every persisted
    /// page and schedule to it, so the device's volatile display state
    /// matches the last known-good persisted state after a power loss.
    /// On success every live page and schedule was replayed; on any
    /// failure, whatever frames did go out were the set-id frame and
    /// replays, and the stores are untouched either way.
    #[verifier::rlimit(50)]
    pub fn init(&mut self) -> (r: Result<(), Error>)
        ensures
            final(self).stores_match(&old(self)),
            final(self).panel_id == old(self).panel_id,
            match r {
                Ok(u) => {
                    &&& old(self).page_store.wf()
                    &&& old(self).schedule_store.wf()
                    &&& old(self).transport.sent().len() < final(self).transport.sent().len()
                    &&& final(self).transport.sent()[old(self).transport.sent().len() as int]
                        == set_id_frame(old(self).panel_id)
                    &&& final(self).transport.sent().subrange(
                        0,
                        old(self).transport.sent().len() as int,
                    ) == old(self).transport.sent()
                    &&& forall|j: int|
                        old(self).transport.sent().len() < j < final(self).transport.sent().len()
                            ==> old(self).replay_frame(
                            #[trigger] final(self).transport.sent()[j],
                        )
                    &&& forall|k: u8| #![trigger map_lookup(old(self).page_store.raw(), k)]
                        map_lookup(old(self).page_store.raw(), k) is Some ==> page_key_replayed(
                            old(self).page_store.raw(),
                            final(self).transport.sent(),
                            old(self).transport.sent().len() as int,
                            old(self).panel_id,
                            k,
                        )
                    &&& forall|k: u8| #![trigger map_lookup(old(self).schedule_store.raw(), k)]
                        map_lookup(old(self).schedule_store.raw(), k) is Some
                            ==> schedule_key_replayed(
                            old(self).schedule_store.raw(),
                            final(self).transport.sent(),
                            old(self).transport.sent().len() as int,
                            old(self).panel_id,
                            k,
                        )
                },
                Err(e) => {
                    &&& old(self).transport.sent().len() <= final(self).transport.sent().len()
                    &&& final(self).transport.sent().subrange(
                        0,
                        old(self).transport.sent().len() as int,
                    ) == old(self).transport.sent()
                    &&& (final(self).transport.sent().len() > old(self).transport.sent().len()
                        ==> final(self).transport.sent()[old(self).transport.sent().len() as int]
                        == set_id_frame(old(self).panel_id))
                    &&& forall|j: int|
                        old(self).transport.sent().len() < j < final(self).transport.sent().len()
                            ==> old(self).replay_frame(
                            #[trigger] final(self).transport.sent()[j],
                        )
                },
            },
    {
        let ghost me = *self;
        let frame = codec::set_id(self.panel_id);
        match self.transport.send(frame.as_slice()) {
            Ok(u) => {},
            Err(f) => {
                proof {
                    assert(self.transport.sent().subrange(
                        0,
                        me.transport.sent().len() as int,
                    ) =~= me.transport.sent());
                }
                return Err(Error::Transport(f));
            },
        }
        let ghost base = self.transport.sent().len();
        let ghost s1 = *self;
        let pages = match self.get_pages() {
            Ok(v) => v,
            Err(e) => {
                proof {
                    assert(self.transport.sent().subrange(
                        0,
                        me.transport.sent().len() as int,
                    ) =~= me.transport.sent());
                }
                return Err(e);
            },
        };
        proof {
            assert(me.page_store.raw() == s1.page_store.raw());
            assert(pages_listed(me.page_store.raw(), pages@));
            assert(pages_complete(me.page_store.raw(), pages@));
        }
        let mut i: usize = 0;
        while i < pages.len()
            invariant
                me == *old(self),
                self.stores_match(&me),
                self.panel_id == me.panel_id,
                self.page_store.raw() == me.page_store.raw(),
                self.schedule_store.raw() == me.schedule_store.raw(),
                me.page_store.wf(),
                base == me.transport.sent().len() + 1,
                self.transport.sent().len() == base + i,
                self.transport.sent().subrange(0, base as int) == me.transport.sent().push(
                    set_id_frame(me.panel_id),
                ),
                forall|j: int|
                    base <= j < self.transport.sent().len() ==> me.replay_frame(
                        #[trigger] self.transport.sent()[j],
                    ),
                i <= pages@.len(),
                pages_listed(me.page_store.raw(), pages@),
                pages_complete(me.page_store.raw(), pages@),
                forall|p: int|
                    0 <= p < i ==> self.transport.sent()[base + p] == envelope(
                        me.panel_id,
                        page_payload(pages@[p]),
                    ),
            decreases pages@.len() - i,
        {
            let frame = match pages[i].command(self.panel_id) {
                Ok(f) => f,
                Err(e) => {
                    proof {
                        lemma_init_prefix(self.transport.sent(), me.transport.sent(), base as int,
                            me.panel_id);
                    }
                    return Err(e);
                },
            };
            match self.transport.send(frame.as_slice()) {
                Ok(u) => {},
                Err(f) => {
                    proof {
                        assert(me.replay_frame(frame@));
                        assert(self.transport.sent().subrange(0, base as int)
                            =~= me.transport.sent().push(set_id_frame(me.panel_id)));
                        lemma_init_prefix(self.transport.sent(), me.transport.sent(), base as int,
                            me.panel_id);
                    }
                    return Err(Error::Transport(f));
                },
            }
            proof {
                assert(me.replay_frame(self.transport.sent().last()));
                assert(self.transport.sent().subrange(0, base as int) =~= me.transport.sent().push(
                    set_id_frame(me.panel_id),
                ));
                assert(self.transport.sent()[base + i] == envelope(
                    me.panel_id,
                    page_payload(pages@[i as int]),
                ));
            }
            i = i + 1;
        }
        let ghost base2 = self.transport.sent().len();
        let ghost s2 = *self;
        let schedules = match self.get_schedules() {
            Ok(v) => v,
            Err(e) => {
                proof {
                    lemma_init_prefix(self.transport.sent(), me.transport.sent(), base as int,
                        me.panel_id);
                }
                return Err(e);
            },
        };
        proof {
            assert(me.schedule_store.raw() == s2.schedule_store.raw());
            assert(schedules_listed(me.schedule_store.raw(), schedules@));
            assert(schedules_complete(me.schedule_store.raw(), schedules@));
        }
        let mut i2: usize = 0;
        while i2 < schedules.len()
            invariant
                me == *old(self),
                self.stores_match(&me),
                self.panel_id == me.panel_id,
                self.page_store.raw() == me.page_store.raw(),
                self.schedule_store.raw() == me.schedule_store.raw(),
                me.page_store.wf(),
                me.schedule_store.wf(),
                base == me.transport.sent().len() + 1,
                base2 == base + pages@.len(),
                self.transport.sent().len() == base2 + i2,
                self.transport.sent().subrange(0, base as int) == me.transport.sent().push(
                    set_id_frame(me.panel_id),
                ),
                forall|j: int|
                    base <= j < self.transport.sent().len() ==> me.replay_frame(
                        #[trigger] self.transport.sent()[j],
                    ),
                i2 <= schedules@.len(),
                schedules_listed(me.schedule_store.raw(), schedules@),
                schedules_complete(me.schedule_store.raw(), schedules@),
                pages_complete(me.page_store.raw(), pages@),
                forall|p: int|
                    0 <= p < pages@.len() ==> self.transport.sent()[base + p] == envelope(
                        me.panel_id,
                        page_payload(pages@[p]),
                    ),
                forall|p: int|
                    0 <= p < i2 ==> self.transport.sent()[base2 + p] == envelope(
                        me.panel_id,
                        schedule_payload(schedules@[p]),
                    ),
            decreases schedules@.len() - i2,
        {
            let frame = match schedules[i2].checked_command(self.panel_id) {
                Ok(f) => f,
                Err(e) => {
                    proof {
                        lemma_init_prefix(self.transport.sent(), me.transport.sent(), base as int,
                            me.panel_id);
                    }
                    return Err(e);
                },
            };
            match self.transport.send(frame.as_slice()) {
                Ok(u) => {},
                Err(f) => {
                    proof {
                        assert(me.replay_frame(frame@));
                        assert(self.transport.sent().subrange(0, base as int)
                            =~= me.transport.sent().push(set_id_frame(me.panel_id)));
                        lemma_init_prefix(self.transport.sent(), me.transport.sent(), base as int,
                            me.panel_id);
                    }
                    return Err(Error::Transport(f));
                },
            }
            proof {
                assert(me.replay_frame(self.transport.sent().last()));
                assert(self.transport.sent().subrange(0, base as int) =~= me.transport.sent().push(
                    set_id_frame(me.panel_id),
                ));
                assert(self.transport.sent()[base2 + i2] == envelope(
                    me.panel_id,
                    schedule_payload(schedules@[i2 as int]),
                ));
            }
            i2 = i2 + 1;
        }
        proof {
            lemma_init_prefix(self.transport.sent(), me.transport.sent(), base as int, me.panel_id);
            let sent = self.transport.sent();
            let b0 = me.transport.sent().len() as int;
            assert forall|k: u8| #![trigger map_lookup(old(self).page_store.raw(), k)]
                map_lookup(old(self).page_store.raw(), k) is Some implies page_key_replayed(
                old(self).page_store.raw(),
                sent,
                b0,
                old(self).panel_id,
                k,
            ) by {
                assert(map_lookup(me.page_store.raw(), k) is Some);
                assert(key_in_pages(me.page_store.raw(), pages@, k));
                let pi = choose|pi: int|
                    0 <= pi < pages@.len() && Some(page_record(pages@[pi])) == map_lookup(
                        me.page_store.raw(),
                        k,
                    );
                assert(sent[base + pi] == envelope(me.panel_id, page_payload(pages@[pi])));
                assert(b0 <= base + pi < sent.len());
            }
            assert forall|k: u8| #![trigger map_lookup(old(self).schedule_store.raw(), k)]
                map_lookup(old(self).schedule_store.raw(), k) is Some implies schedule_key_replayed(
                old(self).schedule_store.raw(),
                sent,
                b0,
                old(self).panel_id,
                k,
            ) by {
                assert(map_lookup(me.schedule_store.raw(), k) is Some);
                assert(key_in_schedules(me.schedule_store.raw(), schedules@, k));
                let si = choose|si: int|
                    0 <= si < schedules@.len() && Some(schedule_record(schedules@[si]))
                        == map_lookup(me.schedule_store.raw(), k);
                assert(sent[base2 + si] == envelope(me.panel_id, schedule_payload(schedules@[si])));
                assert(b0 <= base2 + si < sent.len());
            }
        }
        Ok(())
    }

    /// Sends the panel's clock. The value is never persisted: the
    /// device's onboard clock is authoritative once set.
    pub fn set_clock(&mut self, date_time: DateTime) -> (r: Result<(), Error>)
        ensures
            final(self).stores_match(&old(self)),
            final(self).panel_id == old(self).panel_id,
            match r {
                Ok(u) => date_time.two_digit() && final(self).transport.sent() == old(self).transport.sent().push(
                    envelope(old(self).panel_id, date_time.set_clock_payload()),
                ),
                Err(e) => {
                    &&& (e == Error::BadRequest <==> !date_time.two_digit())
                    &&& (!date_time.two_digit() ==> *final(self) == *old(self))
                    &&& (e matches Error::Transport(_) ==> final(self).stores_match(&old(self))
                        && (final(self).transport.sent() == old(self).transport.sent() || final(self).transport.sent() == old(self).transport.sent().push(
                        envelope(old(self).panel_id, date_time.set_clock_payload()),
                    )))
                    &&& (e matches Error::Transport(_) || e == Error::BadRequest)
                },
            },
    {
        let frame = match date_time.checked_command(self.panel_id) {
            Ok(f) => f,
            Err(e) => {
                return Err(e);
            },
        };
        match self.transport.send(frame.as_slice()) {
            Ok(u) => Ok(()),
            Err(f) => Err(Error::Transport(f)),
        }
    }

    /// Sends the delete-everything command, then erases both flash
    /// regions, discarding all history; afterwards both stores are
    /// empty and their full capacity is usable again.
    pub fn delete_all(&mut self) -> (r: Result<(), Error>)
        ensures
            match r {
                Ok(u) => {
                    &&& final(self).transport.sent() == old(self).transport.sent().push(
                        envelope(old(self).panel_id, delete_all_payload()),
                    )
                    &&& final(self).page_store.wf()
                    &&& final(self).schedule_store.wf()
                    &&& final(self).page_store.raw() == Map::<u8, Option<Seq<u8>>>::empty()
                    &&& final(self).schedule_store.raw() == Map::<u8, Option<Seq<u8>>>::empty()
                    &&& free_space_clear(
                        final(self).page_store.flash.bytes(),
                        0,
                        final(self).page_store.flash.bytes().len() as int,
                    )
                    &&& free_space_clear(
                        final(self).schedule_store.flash.bytes(),
                        0,
                        final(self).schedule_store.flash.bytes().len() as int,
                    )
                    &&& final(self).panel_id == old(self).panel_id
                },
                Err(e) => {
                    &&& (e matches Error::Transport(_) ==> final(self).stores_match(&old(self))
                        && (final(self).transport.sent() == old(self).transport.sent() || final(self).transport.sent() == old(self).transport.sent().push(
                        envelope(old(self).panel_id, delete_all_payload()),
                    )))
                    &&& (e matches Error::Storage(_) ==> final(self).transport.sent() == old(self).transport.sent().push(envelope(old(self).panel_id, delete_all_payload())))
                    &&& (e matches Error::Transport(_) || e matches Error::Storage(_))
                },
            },
    {
        let frame = (DeleteAll {  }).command(self.panel_id);
        match self.transport.send(frame.as_slice()) {
            Ok(u) => {},
            Err(f) => {
                return Err(Error::Transport(f));
            },
        }
        match self.page_store.delete_all() {
            Ok(u) => {},
            Err(f) => {
                return Err(Error::Storage(f));
            },
        }
        match self.schedule_store.delete_all() {
            Ok(u) => Ok(()),
            Err(f) => Err(Error::Storage(f)),
        }
    }
}

} // verus!
