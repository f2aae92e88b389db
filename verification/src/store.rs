//! The log-structured key-value store over a fixed flash byte range.
//!
//! Every write appends a record; a key's current value is the payload
//! of the most recently appended live record for it, and a tombstone
//! record logically deletes a key without reclaiming space. The whole
//! region is erased to reclaim space.
//!
//! On flash a record is `marker, key, flag, len` followed by `len`
//! payload bytes; the scan of a region stops cleanly at the first
//! erased byte (or the region's end) and is corrupt if it stops on
//! anything else.

use vstd::prelude::*;

use crate::error::StorageFault;
use crate::flash::update_range;
use crate::flash::FlashMedium;
use crate::flash::ERASED_BYTE;

verus! {

/// First byte of every record.
pub const RECORD_MARKER: u8 = 0xA5;

/// Bytes of a record before its payload: marker, key, flag, length.
pub const RECORD_HEADER_BYTES: usize = 4;

/// Flag byte of a live record.
pub const FLAG_LIVE: u8 = 1;

/// Flag byte of a tombstone record.
pub const FLAG_TOMBSTONE: u8 = 0;

/// The largest payload one record can carry: its length byte's range.
pub const MAX_RECORD_PAYLOAD: usize = 255;

/// The record starting at `off`, when the bytes there form one:
/// its key, its payload (`None` for a tombstone), and the offset just
/// after it.
pub open spec fn record_at(bytes: Seq<u8>, off: int) -> Option<(u8, Option<Seq<u8>>, int)> {
    if 0 <= off && off + 4 <= bytes.len() && bytes[off] == RECORD_MARKER && (bytes[off + 2]
        == FLAG_TOMBSTONE || bytes[off + 2] == FLAG_LIVE) && off + 4 + bytes[off + 3]
        <= bytes.len() {
        Some(
            (
                bytes[off + 1],
                if bytes[off + 2] == FLAG_LIVE {
                    Some(bytes.subrange(off + 4, off + 4 + bytes[off + 3]))
                } else {
                    None
                },
                off + 4 + bytes[off + 3],
            ),
        )
    } else {
        None
    }
}

/// Scans the region from `off` with the records seen so far folded
/// into `acc`, a later record for a key superseding an earlier one.
/// The result is the folded map, the offset where the scan stopped,
/// and whether it stopped cleanly: at the region's end or on an
/// erased byte.
pub open spec fn scan_from(bytes: Seq<u8>, off: int, acc: Map<u8, Option<Seq<u8>>>) -> (
    Map<u8, Option<Seq<u8>>>,
    int,
    bool,
)
    decreases bytes.len() - off,
{
    if off < 0 || off >= bytes.len() {
        (acc, off, off == bytes.len())
    } else if bytes[off] == ERASED_BYTE {
        (acc, off, true)
    } else {
        match record_at(bytes, off) {
            Some(rec) => scan_from(bytes, rec.2, acc.insert(rec.0, rec.1)),
            None => (acc, off, false),
        }
    }
}

/// The scan of a whole region.
pub open spec fn scan(bytes: Seq<u8>) -> (Map<u8, Option<Seq<u8>>>, int, bool) {
    scan_from(bytes, 0, Map::empty())
}

/// What a folded map answers for a key: the payload of its live
/// record, or nothing when the key is absent or tombstoned.
pub open spec fn map_lookup(m: Map<u8, Option<Seq<u8>>>, key: u8) -> Option<Seq<u8>> {
    if m.contains_key(key) && m[key] is Some {
        Some(m[key]->Some_0)
    } else {
        None
    }
}

/// The bytes from `from` up to `to`, clipped to the region, are all
/// erased: the free space there can take an appended record.
pub open spec fn free_space_clear(bytes: Seq<u8>, from: int, to: int) -> bool {
    forall|i: int| from <= i < to && i < bytes.len() ==> bytes[i] == ERASED_BYTE
}

/// What ties a listing to a folded map: keys appear at most once, each
/// listed pair is a live entry of the map, and every live entry of the
/// map is listed.
pub open spec fn items_ok(items: Seq<(u8, Vec<u8>)>, acc: Map<u8, Option<Seq<u8>>>) -> bool {
    &&& forall|i: int, j: int| 0 <= i < j < items.len() ==> items[i].0 != items[j].0
    &&& forall|i: int|
        0 <= i < items.len() ==> map_lookup(acc, #[trigger] items[i].0) == Some(items[i].1@)
    &&& forall|k: u8|
        map_lookup(acc, k) is Some ==> exists|i: int|
            0 <= i < items.len() && (#[trigger] items[i]).0 == k
}

/// Replacing the listed pair of a key with the key's new live value
/// keeps the listing tied to the updated map.
proof fn lemma_items_replace(
    old_items: Seq<(u8, Vec<u8>)>,
    new_items: Seq<(u8, Vec<u8>)>,
    acc0: Map<u8, Option<Seq<u8>>>,
    acc: Map<u8, Option<Seq<u8>>>,
    key: u8,
    data: Seq<u8>,
    i: int,
)
    requires
        items_ok(old_items, acc0),
        acc == acc0.insert(key, Some(data)),
        0 <= i < old_items.len(),
        old_items[i].0 == key,
        new_items.len() == old_items.len(),
        new_items[i].0 == key,
        new_items[i].1@ == data,
        forall|p: int| 0 <= p < old_items.len() && p != i ==> new_items[p] == old_items[p],
    ensures
        items_ok(new_items, acc),
{
    assert forall|k: u8| map_lookup(acc, k) is Some implies exists|j: int|
        0 <= j < new_items.len() && (#[trigger] new_items[j]).0 == k by {
        if k == key {
            assert(new_items[i].0 == k);
        } else {
            assert(map_lookup(acc0, k) is Some);
            let j = choose|j: int| 0 <= j < old_items.len() && (#[trigger] old_items[j]).0 == k;
            assert(new_items[j].0 == k);
        }
    }
}

/// Appending a pair for a key the listing lacked keeps the listing
/// tied to the updated map.
proof fn lemma_items_push(
    old_items: Seq<(u8, Vec<u8>)>,
    new_items: Seq<(u8, Vec<u8>)>,
    acc0: Map<u8, Option<Seq<u8>>>,
    acc: Map<u8, Option<Seq<u8>>>,
    key: u8,
    data: Seq<u8>,
)
    requires
        items_ok(old_items, acc0),
        acc == acc0.insert(key, Some(data)),
        forall|p: int| 0 <= p < old_items.len() ==> (#[trigger] old_items[p]).0 != key,
        new_items.len() == old_items.len() + 1,
        new_items[old_items.len() as int].0 == key,
        new_items[old_items.len() as int].1@ == data,
        forall|p: int| 0 <= p < old_items.len() ==> new_items[p] == old_items[p],
    ensures
        items_ok(new_items, acc),
{
    assert forall|k: u8| map_lookup(acc, k) is Some implies exists|j: int|
        0 <= j < new_items.len() && (#[trigger] new_items[j]).0 == k by {
        if k == key {
            assert(new_items[old_items.len() as int].0 == k);
        } else {
            assert(map_lookup(acc0, k) is Some);
            let j = choose|j: int| 0 <= j < old_items.len() && (#[trigger] old_items[j]).0 == k;
            assert(new_items[j].0 == k);
        }
    }
}

/// Removing a key's pair by swapping in the last one keeps the listing
/// tied to the map updated with that key's tombstone.
proof fn lemma_items_remove(
    old_items: Seq<(u8, Vec<u8>)>,
    new_items: Seq<(u8, Vec<u8>)>,
    acc0: Map<u8, Option<Seq<u8>>>,
    acc: Map<u8, Option<Seq<u8>>>,
    key: u8,
    i: int,
)
    requires
        items_ok(old_items, acc0),
        acc == acc0.insert(key, None),
        0 <= i < old_items.len(),
        old_items[i].0 == key,
        new_items == old_items.update(i, old_items.last()).drop_last(),
    ensures
        items_ok(new_items, acc),
{
    assert(new_items.len() == old_items.len() - 1);
    assert forall|k: u8| map_lookup(acc, k) is Some implies exists|j: int|
        0 <= j < new_items.len() && (#[trigger] new_items[j]).0 == k by {
        assert(k != key);
        assert(map_lookup(acc0, k) is Some);
        let j = choose|j: int| 0 <= j < old_items.len() && (#[trigger] old_items[j]).0 == k;
        if j == old_items.len() - 1 {
            assert(new_items[i].0 == k);
        } else {
            assert(new_items[j].0 == k);
        }
    }
}

/// A tombstone for a key the listing lacked leaves the listing tied to
/// the updated map.
proof fn lemma_items_tomb_absent(
    items: Seq<(u8, Vec<u8>)>,
    acc0: Map<u8, Option<Seq<u8>>>,
    acc: Map<u8, Option<Seq<u8>>>,
    key: u8,
)
    requires
        items_ok(items, acc0),
        acc == acc0.insert(key, None),
        forall|p: int| 0 <= p < items.len() ==> (#[trigger] items[p]).0 != key,
    ensures
        items_ok(items, acc),
{
    assert forall|k: u8| map_lookup(acc, k) is Some implies exists|j: int|
        0 <= j < items.len() && (#[trigger] items[j]).0 == k by {
        assert(k != key);
        assert(map_lookup(acc0, k) is Some);
        let j = choose|j: int| 0 <= j < items.len() && (#[trigger] items[j]).0 == k;
        assert(items[j].0 == k);
    }
}

/// The index of a key in a listing, when it appears.
fn find_key(items: &Vec<(u8, Vec<u8>)>, key: u8) -> (r: Option<usize>)
    ensures
        match r {
            Some(i) => i < items@.len() && items@[i as int].0 == key,
            None => forall|i: int| 0 <= i < items@.len() ==> (#[trigger] items@[i]).0 != key,
        },
{
    let mut i: usize = 0;
    while i < items.len()
        invariant
            i <= items@.len(),
            forall|j: int| 0 <= j < i ==> (#[trigger] items@[j]).0 != key,
        decreases items@.len() - i,
    {
        if items[i].0 == key {
            return Some(i);
        }
        i = i + 1;
    }
    None
}

/// A scan never stops before the offset it started from.
proof fn lemma_scan_end_bound(bytes: Seq<u8>, off: int, acc: Map<u8, Option<Seq<u8>>>)
    requires
        0 <= off <= bytes.len(),
    ensures
        off <= scan_from(bytes, off, acc).1 <= bytes.len(),
    decreases bytes.len() - off,
{
    if off < bytes.len() && bytes[off] != ERASED_BYTE {
        match record_at(bytes, off) {
            Some(rec) => {
                lemma_scan_end_bound(bytes, rec.2, acc.insert(rec.0, rec.1));
            },
            None => {},
        }
    }
}

/// A clean scan is insensitive to changes at or beyond the offset
/// where it stopped: scanning the changed bytes walks the same records
/// and arrives at the stop offset with the same folded map.
proof fn lemma_scan_frame(
    old_bytes: Seq<u8>,
    new_bytes: Seq<u8>,
    off: int,
    acc: Map<u8, Option<Seq<u8>>>,
)
    requires
        0 <= off <= old_bytes.len(),
        old_bytes.len() == new_bytes.len(),
        scan_from(old_bytes, off, acc).2,
        forall|i: int|
            off <= i < scan_from(old_bytes, off, acc).1 ==> new_bytes[i] == old_bytes[i],
    ensures
        scan_from(new_bytes, off, acc) == scan_from(
            new_bytes,
            scan_from(old_bytes, off, acc).1,
            scan_from(old_bytes, off, acc).0,
        ),
    decreases old_bytes.len() - off,
{
    let s = scan_from(old_bytes, off, acc);
    if off == s.1 {
        // the scan stopped where it started, so it consumed no record
        if off < old_bytes.len() && old_bytes[off] != ERASED_BYTE {
            match record_at(old_bytes, off) {
                Some(rec) => {
                    lemma_scan_end_bound(old_bytes, rec.2, acc.insert(rec.0, rec.1));
                    assert(false);
                },
                None => {
                    assert(!s.2);
                    assert(false);
                },
            }
        }
        assert(s.0 == acc);
    } else {
        lemma_scan_end_bound(old_bytes, off, acc);
        // the first record of the old scan is intact in the new bytes
        match record_at(old_bytes, off) {
            Some(rec) => {
                lemma_scan_end_bound(old_bytes, rec.2, acc.insert(rec.0, rec.1));
                assert(rec.2 <= s.1);
                assert(record_at(new_bytes, off) == record_at(old_bytes, off)) by {
                    assert(new_bytes[off] == old_bytes[off]);
                    assert(new_bytes[off + 1] == old_bytes[off + 1]);
                    assert(new_bytes[off + 2] == old_bytes[off + 2]);
                    assert(new_bytes[off + 3] == old_bytes[off + 3]);
                    if old_bytes[off + 2] == FLAG_LIVE {
                        assert(new_bytes.subrange(off + 4, off + 4 + old_bytes[off + 3])
                            =~= old_bytes.subrange(off + 4, off + 4 + old_bytes[off + 3]));
                    }
                }
                lemma_scan_frame(old_bytes, new_bytes, rec.2, acc.insert(rec.0, rec.1));
            },
            None => {
                // a clean scan that moved must have read a record
                assert(false);
            },
        }
    }
}

/// Read access to the slot id a stored entity carries.
pub trait IdAble {
    /// The id, as a specification value.
    spec fn spec_id(&self) -> char;

    /// The id character that keys this value's store slot.
    fn get_id(&self) -> (r: char)
        ensures
            r == self.spec_id(),
    ;
}

/// A log-structured store over one flash region.
pub struct Store<F: FlashMedium> {
    /// The flash region that holds the records.
    pub flash: F,
}

impl<F: FlashMedium> Store<F> {
    /// The folded record map of the region: one entry per key that any
    /// record mentions, holding the most recent record's payload, or
    /// `None` when that record is a tombstone.
    pub open spec fn raw(&self) -> Map<u8, Option<Seq<u8>>> {
        scan(self.flash.bytes()).0
    }

    /// The region parses cleanly as a record log.
    pub open spec fn wf(&self) -> bool {
        scan(self.flash.bytes()).2
    }

    /// Where the record log ends and free space begins.
    pub open spec fn log_end(&self) -> int {
        scan(self.flash.bytes()).1
    }

    /// The live value for a key: the most recently written payload,
    /// or nothing when the key is absent or tombstoned.
    pub open spec fn lookup(&self, key: u8) -> Option<Seq<u8>> {
        map_lookup(self.raw(), key)
    }

    /// Wraps a flash region. The region's existing contents are kept:
    /// whatever record log it holds is the store's state.
    pub fn new(flash: F) -> (r: Self)
        ensures
            r.flash == flash,
    {
        Store { flash }
    }

    /// Returns the most recently written live value for `key`, or
    /// `None` when the key is absent or tombstoned. Fails with
    /// `Corrupted` when the region does not parse, or `Io` when the
    /// medium fails.
    pub fn read(&mut self, key: u8) -> (r: Result<Option<Vec<u8>>, StorageFault>)
        ensures
            final(self).flash.bytes() == old(self).flash.bytes(),
            match r {
                Ok(v) => {
                    &&& old(self).wf()
                    &&& match v {
                        Some(d) => old(self).lookup(key) == Some(d@),
                        None => old(self).lookup(key) is None,
                    }
                },
                Err(f) => f == StorageFault::Io || (f == StorageFault::Corrupted && !old(
                    self,
                ).wf()),
            },
    {
        let ghost bytes = self.flash.bytes();
        let n = self.flash.region_len();
        let mut off: usize = 0;
        let mut found: Option<Vec<u8>> = None;
        let ghost mut acc: Map<u8, Option<Seq<u8>>> = Map::empty();
        while off < n
            invariant
                bytes == old(self).flash.bytes(),
                self.flash.bytes() == bytes,
                n == bytes.len(),
                off <= n,
                scan_from(bytes, 0, Map::empty()) == scan_from(bytes, off as int, acc),
                match found {
                    Some(d) => map_lookup(acc, key) == Some(d@),
                    None => map_lookup(acc, key) is None,
                },
            decreases n - off,
        {
            let marker = match self.flash.read(off, 1) {
                Ok(d) => d,
                Err(f) => {
                    return Err(f);
                },
            };
            if marker[0] == ERASED_BYTE {
                proof {
                    assert(scan_from(bytes, off as int, acc) == (acc, off as int, true));
                }
                return Ok(found);
            }
            if marker[0] != RECORD_MARKER || n - off < RECORD_HEADER_BYTES {
                return Err(StorageFault::Corrupted);
            }
            let header = match self.flash.read(off, RECORD_HEADER_BYTES) {
                Ok(d) => d,
                Err(f) => {
                    return Err(f);
                },
            };
            let rkey = header[1];
            let flag = header[2];
            let len = header[3] as usize;
            if flag != FLAG_LIVE && flag != FLAG_TOMBSTONE {
                return Err(StorageFault::Corrupted);
            }
            if len > n - off - RECORD_HEADER_BYTES {
                return Err(StorageFault::Corrupted);
            }
            let ghost rec = record_at(bytes, off as int)->Some_0;
            proof {
                assert(record_at(bytes, off as int) is Some);
                assert(rec.0 == rkey);
                assert(rec.2 == off + 4 + len);
            }
            if rkey == key {
                if flag == FLAG_LIVE {
                    let data = match self.flash.read(off + RECORD_HEADER_BYTES, len) {
                        Ok(d) => d,
                        Err(f) => {
                            return Err(f);
                        },
                    };
                    proof {
                        assert(rec.1 == Some(data@));
                    }
                    found = Some(data);
                } else {
                    found = None;
                }
            }
            proof {
                acc = acc.insert(rec.0, rec.1);
            }
            off = off + RECORD_HEADER_BYTES + len;
        }
        proof {
            assert(scan_from(bytes, off as int, acc) == (acc, off as int, true));
            assert(scan(bytes) == (acc, off as int, true));
        }
        Ok(found)
    }

    /// Scans the whole region once and returns every live entry: one
    /// pair per key that has a live record, holding its most recent
    /// payload. Tombstoned and absent keys do not appear. The order is
    /// scan order and carries no meaning.
    pub fn read_all(&mut self) -> (r: Result<Vec<(u8, Vec<u8>)>, StorageFault>)
        ensures
            final(self).flash.bytes() == old(self).flash.bytes(),
            match r {
                Ok(items) => {
                    &&& old(self).wf()
                    &&& forall|i: int, j: int|
                        0 <= i < j < items@.len() ==> items@[i].0 != items@[j].0
                    &&& forall|i: int|
                        0 <= i < items@.len() ==> old(self).lookup(#[trigger] items@[i].0)
                            == Some(items@[i].1@)
                    &&& forall|k: u8|
                        old(self).lookup(k) is Some ==> exists|i: int|
                            0 <= i < items@.len() && (#[trigger] items@[i]).0 == k
                },
                Err(f) => f == StorageFault::Io || (f == StorageFault::Corrupted && !old(
                    self,
                ).wf()),
            },
    {
        let ghost bytes = self.flash.bytes();
        let n = self.flash.region_len();
        let mut off: usize = 0;
        let mut items: Vec<(u8, Vec<u8>)> = Vec::new();
        let ghost mut acc: Map<u8, Option<Seq<u8>>> = Map::empty();
        while off < n
            invariant
                bytes == old(self).flash.bytes(),
                self.flash.bytes() == bytes,
                n == bytes.len(),
                off <= n,
                scan_from(bytes, 0, Map::empty()) == scan_from(bytes, off as int, acc),
                items_ok(items@, acc),
            ensures
                self.flash.bytes() == bytes,
                off <= n,
                scan_from(bytes, 0, Map::empty()) == scan_from(bytes, off as int, acc),
                off == n || bytes[off as int] == ERASED_BYTE,
                items_ok(items@, acc),
            decreases n - off,
        {
            let marker = match self.flash.read(off, 1) {
                Ok(d) => d,
                Err(f) => {
                    return Err(f);
                },
            };
            if marker[0] == ERASED_BYTE {
                break ;
            }
            if marker[0] != RECORD_MARKER || n - off < RECORD_HEADER_BYTES {
                return Err(StorageFault::Corrupted);
            }
            let header = match self.flash.read(off, RECORD_HEADER_BYTES) {
                Ok(d) => d,
                Err(f) => {
                    return Err(f);
                },
            };
            let rkey = header[1];
            let flag: u8 = header[2];
            let len = header[3] as usize;
            if flag != FLAG_LIVE && flag != FLAG_TOMBSTONE {
                return Err(StorageFault::Corrupted);
            }
            if len > n - off - RECORD_HEADER_BYTES {
                return Err(StorageFault::Corrupted);
            }
            let ghost rec = record_at(bytes, off as int)->Some_0;
            proof {
                assert(record_at(bytes, off as int) is Some);
                assert(rec.0 == rkey);
                assert(rec.2 == off + 4 + len);
            }
            let at = find_key(&items, rkey);
            let ghost items0 = items@;
            let ghost acc0 = acc;
            proof {
                acc = acc.insert(rec.0, rec.1);
            }
            if flag == FLAG_LIVE {
                let data = match self.flash.read(off + RECORD_HEADER_BYTES, len) {
                    Ok(d) => d,
                    Err(f) => {
                        return Err(f);
                    },
                };
                proof {
                    assert(rec.1 == Some(data@));
                }
                match at {
                    Some(i) => {
                        items[i] = (rkey, data);
                        proof {
                            lemma_items_replace(items0, items@, acc0, acc, rkey, data@, i as int);
                        }
                    },
                    None => {
                        items.push((rkey, data));
                        proof {
                            lemma_items_push(items0, items@, acc0, acc, rkey, data@);
                        }
                    },
                }
            } else {
                match at {
                    Some(i) => {
                        items.swap_remove(i);
                        proof {
                            lemma_items_remove(items0, items@, acc0, acc, rkey, i as int);
                        }
                    },
                    None => {
                        proof {
                            lemma_items_tomb_absent(items0, acc0, acc, rkey);
                        }
                    },
                }
            }
            off = off + RECORD_HEADER_BYTES + len;
        }
        proof {
            assert(scan_from(bytes, off as int, acc) == (acc, off as int, true));
            assert(scan(bytes) == (acc, off as int, true));
        }
        Ok(items)
    }

    /// Appends one record for `key`: a live record carrying `value`,
    /// or a tombstone when `value` is `None`. On success the folded
    /// map gains exactly that entry. Besides a medium fault, it fails
    /// only on an oversize value, on actual exhaustion of the region,
    /// or on a region that does not parse or whose free space was
    /// disturbed.
    fn append_record(&mut self, key: u8, value: Option<&[u8]>) -> (r: Result<(), StorageFault>)
        ensures
            final(self).flash.bytes().len() == old(self).flash.bytes().len(),
            (value matches Some(v) && v@.len() > MAX_RECORD_PAYLOAD) ==> (r matches Err(f)
                && f == StorageFault::ItemTooBig),
            match r {
                Ok(u) => {
                    &&& old(self).wf()
                    &&& final(self).wf()
                    &&& final(self).raw() == old(self).raw().insert(
                        key,
                        match value {
                            Some(v) => Some(v@),
                            None => None,
                        },
                    )
                },
                Err(f) => {
                    &&& (f == StorageFault::ItemTooBig ==> (value matches Some(v) && v@.len()
                        > MAX_RECORD_PAYLOAD) && final(self).flash.bytes() == old(
                        self,
                    ).flash.bytes())
                    &&& (f == StorageFault::Full ==> {
                        &&& old(self).wf()
                        &&& old(self).log_end() + RECORD_HEADER_BYTES + (match value {
                            Some(v) => v@.len() as int,
                            None => 0int,
                        }) > old(self).flash.bytes().len()
                        &&& final(self).flash.bytes() == old(self).flash.bytes()
                    })
                    &&& (f == StorageFault::Corrupted ==> {
                        &&& (!old(self).wf() || !free_space_clear(
                            old(self).flash.bytes(),
                            old(self).log_end(),
                            old(self).log_end() + RECORD_HEADER_BYTES + (match value {
                                Some(v) => v@.len() as int,
                                None => 0int,
                            }) + 1,
                        ))
                        &&& final(self).flash.bytes() == old(self).flash.bytes()
                    })
                    &&& f != StorageFault::BufferTooSmall
                },
            },
    {
        let len: usize = match value {
            Some(v) => v.len(),
            None => 0,
        };
        if len > MAX_RECORD_PAYLOAD {
            return Err(StorageFault::ItemTooBig);
        }
        let ghost bytes = self.flash.bytes();
        let n = self.flash.region_len();
        let mut off: usize = 0;
        let ghost mut acc: Map<u8, Option<Seq<u8>>> = Map::empty();
        // walk the log to its end
        while off < n
            invariant
                bytes == old(self).flash.bytes(),
                self.flash.bytes() == bytes,
                n == bytes.len(),
                off <= n,
                scan_from(bytes, 0, Map::empty()) == scan_from(bytes, off as int, acc),
                value matches Some(v) ==> v@.len() == len,
                value is None ==> len == 0,
                len <= MAX_RECORD_PAYLOAD,
            ensures
                bytes == old(self).flash.bytes(),
                self.flash.bytes() == bytes,
                off <= n,
                scan_from(bytes, 0, Map::empty()) == scan_from(bytes, off as int, acc),
                off == n || bytes[off as int] == ERASED_BYTE,
            decreases n - off,
        {
            let marker = match self.flash.read(off, 1) {
                Ok(d) => d,
                Err(f) => {
                    return Err(f);
                },
            };
            if marker[0] == ERASED_BYTE {
                break ;
            }
            if marker[0] != RECORD_MARKER || n - off < RECORD_HEADER_BYTES {
                proof {
                    assert(marker@[0] == bytes[off as int]);
                    assert(record_at(bytes, off as int) is None);
                    assert(!old(self).wf());
                }
                return Err(StorageFault::Corrupted);
            }
            let header = match self.flash.read(off, RECORD_HEADER_BYTES) {
                Ok(d) => d,
                Err(f) => {
                    return Err(f);
                },
            };
            let flag: u8 = header[2];
            let rlen = header[3] as usize;
            proof {
                assert(header@[2] == bytes[off + 2]);
                assert(header@[3] == bytes[off + 3]);
                assert(marker@[0] == bytes[off as int]);
            }
            if flag != FLAG_LIVE && flag != FLAG_TOMBSTONE {
                proof {
                    assert(record_at(bytes, off as int) is None);
                    assert(!old(self).wf());
                }
                return Err(StorageFault::Corrupted);
            }
            if rlen > n - off - RECORD_HEADER_BYTES {
                proof {
                    assert(record_at(bytes, off as int) is None);
                    assert(!old(self).wf());
                }
                return Err(StorageFault::Corrupted);
            }
            let ghost rec = record_at(bytes, off as int)->Some_0;
            proof {
                assert(record_at(bytes, off as int) is Some);
                assert(rec.2 == off + 4 + rlen);
                acc = acc.insert(rec.0, rec.1);
            }
            off = off + RECORD_HEADER_BYTES + rlen;
        }
        proof {
            assert(scan_from(bytes, off as int, acc) == (acc, off as int, true));
            assert(scan(bytes) == (acc, off as int, true));
        }
        let end = off;
        // the record and its header must fit in the free space
        if n - end < RECORD_HEADER_BYTES || n - end - RECORD_HEADER_BYTES < len {
            proof {
                assert(old(self).log_end() == end as int);
            }
            return Err(StorageFault::Full);
        }
        // the free space the record takes, and the byte that will end
        // the scan after it, must still be erased
        let check_to = if end + RECORD_HEADER_BYTES + len < n {
            end + RECORD_HEADER_BYTES + len + 1
        } else {
            n
        };
        let free = match self.flash.read(end, check_to - end) {
            Ok(d) => d,
            Err(f) => {
                return Err(f);
            },
        };
        let mut j: usize = 0;
        while j < free.len()
            invariant
                bytes == old(self).flash.bytes(),
                self.flash.bytes() == bytes,
                scan(bytes) == (acc, end as int, true),
                value matches Some(v) ==> v@.len() == len,
                value is None ==> len == 0,
                len <= MAX_RECORD_PAYLOAD,
                free@ == bytes.subrange(end as int, check_to as int),
                end + free@.len() == check_to <= bytes.len(),
                check_to <= end + RECORD_HEADER_BYTES + len + 1,
                j <= free@.len(),
                forall|i: int| 0 <= i < j ==> free@[i] == ERASED_BYTE,
            decreases free@.len() - j,
        {
            if free[j] != ERASED_BYTE {
                proof {
                    assert(old(self).log_end() == end as int);
                    assert(bytes[end + j] == free@[j as int]);
                    assert(!free_space_clear(
                        bytes,
                        end as int,
                        end + RECORD_HEADER_BYTES + len + 1,
                    ));
                }
                return Err(StorageFault::Corrupted);
            }
            j = j + 1;
        }
        // build and program the record
        let mut rec: Vec<u8> = Vec::new();
        rec.push(RECORD_MARKER);
        rec.push(key);
        match value {
            Some(v) => {
                rec.push(FLAG_LIVE);
                rec.push(len as u8);
                rec.extend_from_slice(v);
            },
            None => {
                rec.push(FLAG_TOMBSTONE);
                rec.push(0);
            },
        }
        let ghost val = match value {
            Some(v) => Some(v@),
            None => None,
        };
        proof {
            assert(rec@.len() == 4 + len);
            assert(rec@[0] == RECORD_MARKER && rec@[1] == key && rec@[3] == len as u8);
            assert(rec@[2] == if val is Some {
                FLAG_LIVE
            } else {
                FLAG_TOMBSTONE
            });
            assert(rec@.subrange(4, 4 + len as int) =~= match val {
                Some(v) => v,
                None => Seq::<u8>::empty(),
            });
        }
        match self.flash.write(end, rec.as_slice()) {
            Ok(u) => {},
            Err(f) => {
                return Err(f);
            },
        }
        proof {
            let nb = self.flash.bytes();
            assert(nb == update_range(bytes, end as int, rec@));
            assert forall|i: int| 0 <= i < end as int implies nb[i] == bytes[i] by {}
            lemma_scan_frame(bytes, nb, 0, Map::empty());
            let next = end + 4 + len;
            assert(nb[end as int] == RECORD_MARKER);
            assert(nb[end + 1] == key);
            assert(nb[end + 3] == len as u8);
            assert(record_at(nb, end as int) is Some);
            let nrec = record_at(nb, end as int)->Some_0;
            assert(nrec.0 == key);
            assert(nrec.2 == next);
            assert(nb.subrange(end + 4, end + 4 + len as int) =~= rec@.subrange(
                4,
                4 + len as int,
            ));
            assert(nrec.1 == val);
            assert(scan_from(nb, end as int, acc) == scan_from(nb, next, acc.insert(key, val)));
            if next < n {
                assert(free@[next - end] == ERASED_BYTE);
                assert(bytes[next] == free@[next - end]);
                assert(nb[next] == bytes[next]);
                assert(scan_from(nb, next, acc.insert(key, val)) == (
                    acc.insert(key, val),
                    next,
                    true,
                ));
            } else {
                assert(scan_from(nb, next, acc.insert(key, val)) == (
                    acc.insert(key, val),
                    next,
                    true,
                ));
            }
            assert(scan(nb) == (acc.insert(key, val), next, true));
        }
        Ok(())
    }

    /// Appends a new live record for `key` holding `value`: an upsert
    /// by append, never an in-place change. Besides a medium fault, the
    /// write fails only on an oversize value, on actual exhaustion of
    /// the region (the record does not fit behind the log's end), or on
    /// a region that does not parse or whose free space was disturbed;
    /// in particular a freshly erased region takes records up to its
    /// full capacity again.
    pub fn write(&mut self, key: u8, value: &[u8]) -> (r: Result<(), StorageFault>)
        ensures
            final(self).flash.bytes().len() == old(self).flash.bytes().len(),
            value@.len() > MAX_RECORD_PAYLOAD ==> (r matches Err(f) && f
                == StorageFault::ItemTooBig),
            match r {
                Ok(u) => {
                    &&& old(self).wf()
                    &&& final(self).wf()
                    &&& final(self).raw() == old(self).raw().insert(key, Some(value@))
                    &&& final(self).lookup(key) == Some(value@)
                },
                Err(f) => {
                    &&& (f == StorageFault::ItemTooBig ==> value@.len() > MAX_RECORD_PAYLOAD
                        && final(self).flash.bytes() == old(self).flash.bytes())
                    &&& (f == StorageFault::Full ==> {
                        &&& old(self).wf()
                        &&& old(self).log_end() + RECORD_HEADER_BYTES + value@.len() > old(
                            self,
                        ).flash.bytes().len()
                        &&& final(self).flash.bytes() == old(self).flash.bytes()
                    })
                    &&& (f == StorageFault::Corrupted ==> {
                        &&& (!old(self).wf() || !free_space_clear(
                            old(self).flash.bytes(),
                            old(self).log_end(),
                            old(self).log_end() + RECORD_HEADER_BYTES + value@.len() + 1,
                        ))
                        &&& final(self).flash.bytes() == old(self).flash.bytes()
                    })
                    &&& f != StorageFault::BufferTooSmall
                },
            },
    {
        self.append_record(key, Some(value))
    }

    /// Appends a tombstone for `key`, logically deleting it while its
    /// old bytes remain until the region is erased. It fails on the
    /// same grounds as a write of an empty value: a medium fault,
    /// actual exhaustion, or a disturbed region.
    pub fn delete(&mut self, key: u8) -> (r: Result<(), StorageFault>)
        ensures
            final(self).flash.bytes().len() == old(self).flash.bytes().len(),
            match r {
                Ok(u) => {
                    &&& old(self).wf()
                    &&& final(self).wf()
                    &&& final(self).raw() == old(self).raw().insert(key, None)
                    &&& final(self).lookup(key) is None
                },
                Err(f) => {
                    &&& (f == StorageFault::Full ==> {
                        &&& old(self).wf()
                        &&& old(self).log_end() + RECORD_HEADER_BYTES > old(
                            self,
                        ).flash.bytes().len()
                        &&& final(self).flash.bytes() == old(self).flash.bytes()
                    })
                    &&& (f == StorageFault::Corrupted ==> {
                        &&& (!old(self).wf() || !free_space_clear(
                            old(self).flash.bytes(),
                            old(self).log_end(),
                            old(self).log_end() + RECORD_HEADER_BYTES + 1,
                        ))
                        &&& final(self).flash.bytes() == old(self).flash.bytes()
                    })
                    &&& f != StorageFault::BufferTooSmall
                    &&& f != StorageFault::ItemTooBig
                },
            },
    {
        self.append_record(key, None)
    }

    /// Erases the whole region, discarding every record and tombstone.
    /// Afterwards the store is empty and every byte is erased, so
    /// writes can use the full capacity again: a following write of a
    /// record that fits the region cannot report it full or disturbed.
    pub fn delete_all(&mut self) -> (r: Result<(), StorageFault>)
        ensures
            final(self).flash.bytes().len() == old(self).flash.bytes().len(),
            match r {
                Ok(u) => {
                    &&& final(self).wf()
                    &&& final(self).raw() == Map::<u8, Option<Seq<u8>>>::empty()
                    &&& final(self).log_end() == 0
                    &&& final(self).flash.bytes() == Seq::new(
                        old(self).flash.bytes().len(),
                        |i: int| ERASED_BYTE,
                    )
                    &&& free_space_clear(
                        final(self).flash.bytes(),
                        0,
                        final(self).flash.bytes().len() as int,
                    )
                },
                Err(f) => f == StorageFault::Io,
            },
    {
        match self.flash.erase() {
            Ok(u) => {
                proof {
                    let nb = self.flash.bytes();
                    assert(scan_from(nb, 0, Map::empty()) == (
                        Map::<u8, Option<Seq<u8>>>::empty(),
                        0int,
                        true,
                    ));
                }
                Ok(())
            },
            Err(f) => Err(f),
        }
    }
}

} // verus!
