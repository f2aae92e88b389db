//! The capability interface to a flash byte range, and an in-memory
//! medium for exercising everything built on top of it.
//!
//! The store and the firmware updater see a flash region only through
//! this trait: a fixed-size byte range that can be read, written and
//! erased as a whole, and that may fail any single operation with an
//! I/O fault. The hardware-backed medium lives outside the library and
//! implements the same trait.

use vstd::prelude::*;

use crate::error::StorageFault;

verus! {

/// The erased state of every flash byte.
pub const ERASED_BYTE: u8 = 0xFF;

/// `s` with the range starting at `off` replaced by `data`.
pub open spec fn update_range(s: Seq<u8>, off: int, data: Seq<u8>) -> Seq<u8> {
    Seq::new(
        s.len(),
        |i: int|
            if off <= i < off + data.len() {
                data[i - off]
            } else {
                s[i]
            },
    )
}

/// A fixed flash byte range: one read, write or erase operation at a
/// time, any of which the medium may refuse with an I/O fault.
pub trait FlashMedium: Sized {
    /// The bytes the region currently holds.
    spec fn bytes(&self) -> Seq<u8>;

    /// The region size in bytes; it never changes.
    fn region_len(&self) -> (n: usize)
        ensures
            n == self.bytes().len(),
    ;

    /// Reads `len` bytes at `offset`. On success the result is exactly
    /// the addressed bytes; the medium itself never changes.
    fn read(&mut self, offset: usize, len: usize) -> (r: Result<Vec<u8>, StorageFault>)
        requires
            offset + len <= old(self).bytes().len(),
        ensures
            final(self).bytes() == old(self).bytes(),
            match r {
                Ok(data) => data@ == old(self).bytes().subrange(
                    offset as int,
                    offset + len as int,
                ),
                Err(f) => f == StorageFault::Io,
            },
    ;

    /// Programs `data` at `offset`. On success exactly that range holds
    /// the new bytes; on failure the range's contents are unknown, but
    /// the region keeps its size.
    fn write(&mut self, offset: usize, data: &[u8]) -> (r: Result<(), StorageFault>)
        requires
            offset + data@.len() <= old(self).bytes().len(),
        ensures
            final(self).bytes().len() == old(self).bytes().len(),
            match r {
                Ok(u) => final(self).bytes() == update_range(
                    old(self).bytes(),
                    offset as int,
                    data@,
                ),
                Err(f) => f == StorageFault::Io,
            },
    ;

    /// Erases the whole region back to `ERASED_BYTE`. On failure the
    /// contents are unknown, but the region keeps its size.
    fn erase(&mut self) -> (r: Result<(), StorageFault>)
        ensures
            final(self).bytes().len() == old(self).bytes().len(),
            match r {
                Ok(u) => final(self).bytes() == Seq::new(
                    old(self).bytes().len(),
                    |i: int| ERASED_BYTE,
                ),
                Err(f) => f == StorageFault::Io,
            },
    ;
}

/// A flash region held in memory: reads, writes and erases always
/// succeed. It backs tests and any deployment that keeps its records
/// in RAM.
pub struct MemFlash {
    cells: Vec<u8>,
}

impl MemFlash {
    /// A freshly erased region of the given size.
    pub fn new(size: usize) -> (r: Self)
        ensures
            r.bytes() == Seq::new(size as nat, |i: int| ERASED_BYTE),
    {
        let mut cells: Vec<u8> = Vec::new();
        let mut i: usize = 0;
        while i < size
            invariant
                i <= size,
                cells@ == Seq::new(i as nat, |j: int| ERASED_BYTE),
            decreases size - i,
        {
            cells.push(ERASED_BYTE);
            proof {
                assert(cells@ =~= Seq::new((i + 1) as nat, |j: int| ERASED_BYTE));
            }
            i = i + 1;
        }
        MemFlash { cells }
    }

    /// A region holding the given bytes, for example an image of a
    /// real region loaded from elsewhere.
    pub fn from_bytes(cells: Vec<u8>) -> (r: Self)
        ensures
            r.bytes() == cells@,
    {
        MemFlash { cells }
    }

    /// A copy of the region's bytes, for example to persist an image
    /// of it elsewhere.
    pub fn snapshot(&self) -> (r: Vec<u8>)
        ensures
            r@ == self.bytes(),
    {
        let mut out: Vec<u8> = Vec::new();
        out.extend_from_slice(self.cells.as_slice());
        out
    }
}

impl FlashMedium for MemFlash {
    closed spec fn bytes(&self) -> Seq<u8> {
        self.cells@
    }

    fn region_len(&self) -> (n: usize) {
        self.cells.len()
    }

    fn read(&mut self, offset: usize, len: usize) -> (r: Result<Vec<u8>, StorageFault>) {
        let n = self.cells.len();
        let mut data: Vec<u8> = Vec::new();
        let mut j: usize = 0;
        while j < len
            invariant
                j <= len,
                offset + len <= n,
                n == self.cells@.len(),
                data@ == self.cells@.subrange(offset as int, offset + j as int),
            decreases len - j,
        {
            data.push(self.cells[offset + j]);
            proof {
                assert(data@ =~= self.cells@.subrange(offset as int, offset + j + 1 as int));
            }
            j = j + 1;
        }
        Ok(data)
    }

    fn write(&mut self, offset: usize, data: &[u8]) -> (r: Result<(), StorageFault>) {
        let n = self.cells.len();
        let mut j: usize = 0;
        while j < data.len()
            invariant
                j <= data@.len(),
                offset + data@.len() <= n,
                n == self.cells@.len(),
                self.cells@.len() == old(self).cells@.len(),
                self.cells@ == update_range(
                    old(self).cells@,
                    offset as int,
                    data@.take(j as int),
                ),
            decreases data@.len() - j,
        {
            self.cells[offset + j] = data[j];
            proof {
                assert(self.cells@ =~= update_range(
                    old(self).cells@,
                    offset as int,
                    data@.take(j + 1),
                ));
            }
            j = j + 1;
        }
        proof {
            assert(data@.take(data@.len() as int) =~= data@);
        }
        Ok(())
    }

    fn erase(&mut self) -> (r: Result<(), StorageFault>) {
        let n = self.cells.len();
        let mut j: usize = 0;
        while j < n
            invariant
                j <= n,
                n == self.cells@.len(),
                self.cells@.len() == old(self).cells@.len(),
                forall|i: int| 0 <= i < j ==> self.cells@[i] == ERASED_BYTE,
            decreases n - j,
        {
            self.cells[j] = ERASED_BYTE;
            j = j + 1;
        }
        proof {
            assert(self.cells@ =~= Seq::new(old(self).cells@.len(), |i: int| ERASED_BYTE));
        }
        Ok(())
    }
}

} // verus!
