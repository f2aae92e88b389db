//! Guarantees that span several operations, stated over the same
//! models their contracts use and proved once here.

use vstd::prelude::*;

use crate::codec::char_byte;
use crate::page::Page;
use crate::panel::page_id_ok;
use crate::panel::schedule_id_ok;
use crate::records::lemma_page_record_injective;
use crate::records::lemma_schedule_record_injective;
use crate::records::page_record;
use crate::records::schedule_record;
use crate::schedule::Schedule;
use crate::store::map_lookup;

verus! {

/// Round trip for a page slot: after a successful `set_page(id, p)`
/// the store's record for `id` is `p`'s frame, so any page a later
/// `get_page(id)` returns agrees with `p` on every field.
pub proof fn lemma_page_round_trip(
    m: Map<u8, Option<Seq<u8>>>,
    id: char,
    p: Page,
    q: Page,
)
    requires
        page_id_ok(id),
        p.id as u32 <= 0xFF,
        q.id as u32 <= 0xFF,
        map_lookup(m.insert(char_byte(id), Some(page_record(p))), char_byte(id)) == Some(
            page_record(q),
        ),
    ensures
        p.line == q.line,
        p.id == q.id,
        p.leading == q.leading,
        p.lagging == q.lagging,
        p.waiting_mode_and_speed == q.waiting_mode_and_speed,
        p.waiting_time == q.waiting_time,
        p.message@ == q.message@,
{
    assert(page_record(p) == page_record(q));
    lemma_page_record_injective(p, q);
}

/// After `delete_page(id)` the store answers nothing for `id`: a later
/// `get_page(id)` finds no record.
pub proof fn lemma_page_delete_round_trip(m: Map<u8, Option<Seq<u8>>>, id: char)
    ensures
        map_lookup(m.insert(char_byte(id), None), char_byte(id)) is None,
{
}

/// Round trip for a schedule slot: after a successful
/// `set_schedule(id, s)` the store's record for `id` is `s`'s frame,
/// so any schedule a later `get_schedule(id)` returns agrees with `s`
/// on every field.
pub proof fn lemma_schedule_round_trip(
    m: Map<u8, Option<Seq<u8>>>,
    id: char,
    s: Schedule,
    t: Schedule,
)
    requires
        schedule_id_ok(id),
        s.id as u32 <= 0xFF,
        t.id as u32 <= 0xFF,
        map_lookup(m.insert(char_byte(id), Some(schedule_record(s))), char_byte(id)) == Some(
            schedule_record(t),
        ),
    ensures
        s.id == t.id,
        s.from == t.from,
        s.to == t.to,
        s.pages@ == t.pages@,
{
    assert(schedule_record(s) == schedule_record(t));
    lemma_schedule_record_injective(s, t);
}

/// After `delete_schedule(id)` the store answers nothing for `id`.
pub proof fn lemma_schedule_delete_round_trip(m: Map<u8, Option<Seq<u8>>>, id: char)
    ensures
        map_lookup(m.insert(char_byte(id), None), char_byte(id)) is None,
{
}

/// The most recent write for a key wins: two writes in a row leave
/// the second one's value, and touch no other key.
pub proof fn lemma_last_write_wins(
    m: Map<u8, Option<Seq<u8>>>,
    k: u8,
    v1: Seq<u8>,
    v2: Seq<u8>,
)
    ensures
        map_lookup(m.insert(k, Some(v1)).insert(k, Some(v2)), k) == Some(v2),
        forall|j: u8|
            j != k ==> map_lookup(m.insert(k, Some(v1)).insert(k, Some(v2)), j) == map_lookup(
                m,
                j,
            ),
{
}

/// After erasing a store, every key answers nothing, whatever was
/// written or deleted before.
pub proof fn lemma_delete_all_empties(k: u8)
    ensures
        map_lookup(Map::<u8, Option<Seq<u8>>>::empty(), k) is None,
{
}

} // verus!
