//! The over-the-air firmware updater: header validation, the
//! alignment-constrained chunked write path with its carry-over buffer,
//! and the boot-slot activation decision.
//!
//! The flow is: `validate_headers` before any partition lookup, then
//! `OtaUpdate::start` against the inactive partition's capacity before
//! any write, then `push` for each body chunk, then `finish_and_activate`,
//! which succeeds only when exactly the declared number of bytes
//! arrived. A failed update never emits a changed boot state, so the
//! previously active partition stays bootable.

use vstd::prelude::*;

use crate::error::Error;

verus! {

/// Firmware images are written in blocks of this many bytes; every
/// write except the final one is a whole number of blocks.
pub const OTA_ALIGNMENT: usize = 4;

/// The only content type accepted for a firmware image:
/// `application/octet-stream`.
pub open spec fn firmware_token() -> Seq<u8> {
    seq![
        0x61u8, 0x70u8, 0x70u8, 0x6Cu8, 0x69u8, 0x63u8, 0x61u8, 0x74u8, 0x69u8, 0x6Fu8, 0x6Eu8,
        0x2Fu8, 0x6Fu8, 0x63u8, 0x74u8, 0x65u8, 0x74u8, 0x2Du8, 0x73u8, 0x74u8, 0x72u8, 0x65u8,
        0x61u8, 0x6Du8,
    ]
}

/// Accepts a firmware upload's headers: the content type must be the
/// binary-image token and the declared length must be positive. This
/// check comes before any partition lookup.
pub fn validate_headers(content_type: &[u8], declared_len: usize) -> (r: Result<(), Error>)
    ensures
        match r {
            Ok(u) => content_type@ == firmware_token() && declared_len > 0,
            Err(e) => e == Error::BadRequest && (content_type@ != firmware_token() || declared_len
                == 0),
        },
{
    let expected: [u8; 24] = [
        0x61, 0x70, 0x70, 0x6C, 0x69, 0x63, 0x61, 0x74, 0x69, 0x6F, 0x6E, 0x2F, 0x6F, 0x63, 0x74,
        0x65, 0x74, 0x2D, 0x73, 0x74, 0x72, 0x65, 0x61, 0x6D,
    ];
    proof {
        assert(expected@ =~= firmware_token());
    }
    if content_type.len() != expected.len() {
        proof {
            assert(content_type@ != firmware_token());
        }
        return Err(Error::BadRequest);
    }
    let mut i: usize = 0;
    while i < content_type.len()
        invariant
            content_type@.len() == expected@.len() == 24,
            expected@ == firmware_token(),
            i <= content_type@.len(),
            forall|j: int| 0 <= j < i ==> content_type@[j] == expected@[j],
        decreases content_type@.len() - i,
    {
        if content_type[i] != expected[i] {
            return Err(Error::BadRequest);
        }
        i = i + 1;
    }
    proof {
        assert(content_type@ =~= firmware_token());
    }
    if declared_len == 0 {
        return Err(Error::BadRequest);
    }
    Ok(())
}

/// The write side of one bootable partition: bytes are appended from
/// the start, and the medium may refuse a write with a storage fault.
pub trait ImageSink: Sized {
    /// The bytes written to the partition by this update so far.
    spec fn data(&self) -> Seq<u8>;

    /// The partition's capacity in bytes; it never changes.
    spec fn capacity(&self) -> nat;

    /// The capacity as a run-time number.
    fn capacity_bytes(&self) -> (r: usize)
        ensures
            r == self.capacity(),
    ;

    /// Appends `chunk` at the current end. On success exactly those
    /// bytes follow what was already written; on failure nothing is
    /// promised of the partition's contents, and a later retry of the
    /// whole update starts over.
    fn write(&mut self, chunk: &[u8]) -> (r: Result<(), Error>)
        requires
            old(self).data().len() + chunk@.len() <= old(self).capacity(),
        ensures
            final(self).capacity() == old(self).capacity(),
            match r {
                Ok(u) => final(self).data() == old(self).data() + chunk@,
                Err(e) => e matches Error::Storage(_),
            },
    ;
}

/// An image sink held in memory: writes always succeed. It backs tests
/// and dry runs.
pub struct MemSink {
    bytes: Vec<u8>,
    room: usize,
}

impl MemSink {
    /// An empty sink that accepts up to `capacity` bytes.
    pub fn new(capacity: usize) -> (r: Self)
        ensures
            r.data() == Seq::<u8>::empty(),
            r.capacity() == capacity,
    {
        MemSink { bytes: Vec::new(), room: capacity }
    }

    /// How many bytes have been written.
    pub fn len(&self) -> (n: usize)
        ensures
            n == self.data().len(),
    {
        self.bytes.len()
    }

    /// The byte written at position `i`.
    pub fn byte_at(&self, i: usize) -> (r: u8)
        requires
            i < self.data().len(),
        ensures
            r == self.data()[i as int],
    {
        self.bytes[i]
    }
}

impl ImageSink for MemSink {
    closed spec fn data(&self) -> Seq<u8> {
        self.bytes@
    }

    closed spec fn capacity(&self) -> nat {
        self.room as nat
    }

    fn capacity_bytes(&self) -> (r: usize) {
        self.room
    }

    fn write(&mut self, chunk: &[u8]) -> (r: Result<(), Error>) {
        self.bytes.extend_from_slice(chunk);
        Ok(())
    }
}

/// Which of the two bootable partitions is meant.
#[derive(Clone, Copy, Debug, PartialEq, Eq, Structural)]
pub enum Slot {
    /// The first partition.
    A,
    /// The second partition.
    B,
}

/// The slot that is not this one.
pub open spec fn other_slot(s: Slot) -> Slot {
    match s {
        Slot::A => Slot::B,
        Slot::B => Slot::A,
    }
}

/// The boot configuration the bootloader consumes: which partition
/// boots next, and whether it still awaits its first-boot validation.
#[derive(Clone, Copy, Debug, PartialEq, Eq, Structural)]
pub struct BootSlots {
    /// The partition the bootloader will start.
    pub active: Slot,
    /// The active image has not yet passed its first-boot validation.
    pub pending_validation: bool,
}

/// One in-flight firmware update: the target partition's write handle,
/// the declared image length, and the carry-over buffer that keeps
/// every flash write (except the final one) aligned.
pub struct OtaUpdate<S: ImageSink> {
    /// The inactive partition being (re)written.
    pub sink: S,
    /// The image length the upload declared.
    pub declared: usize,
    /// How many body bytes have arrived so far.
    pub received: usize,
    /// Bytes that arrived but were not yet flushed: always shorter
    /// than one alignment block.
    pub carry: Vec<u8>,
    /// Every body byte that has arrived, in order.
    pub fed: Ghost<Seq<u8>>,
}

impl<S: ImageSink> OtaUpdate<S> {
    /// What streaming keeps true: the flushed bytes are block-aligned,
    /// the carry is shorter than one block, together they are exactly
    /// the bytes that arrived, and everything fits the declared length,
    /// which fits the partition.
    pub open spec fn wf(&self) -> bool {
        &&& self.sink.data().len() % 4 == 0
        &&& self.carry@.len() < OTA_ALIGNMENT
        &&& self.sink.data() + self.carry@ == self.fed@
        &&& self.received == self.fed@.len()
        &&& self.fed@.len() <= self.declared
        &&& self.declared <= self.sink.capacity()
    }

    /// Starts an update against the inactive partition. A declared
    /// length of zero or one beyond the partition's capacity is
    /// rejected before any write.
    pub fn start(sink: S, declared_len: usize) -> (r: Result<Self, Error>)
        requires
            sink.data().len() == 0,
        ensures
            match r {
                Ok(u) => {
                    &&& 0 < declared_len <= sink.capacity()
                    &&& u.wf()
                    &&& u.declared == declared_len
                    &&& u.received == 0
                    &&& u.sink == sink
                },
                Err(e) => e == Error::BadRequest && (declared_len == 0 || declared_len
                    > sink.capacity()),
            },
    {
        if declared_len == 0 {
            return Err(Error::BadRequest);
        }
        let capacity = sink.capacity_bytes();
        if declared_len > capacity {
            return Err(Error::BadRequest);
        }
        Ok(
            OtaUpdate {
                sink,
                declared: declared_len,
                received: 0,
                carry: Vec::new(),
                fed: Ghost(Seq::empty()),
            },
        )
    }

    /// Takes one body chunk: accumulates it, flushes the largest
    /// aligned prefix to the partition, and retains the unaligned
    /// remainder for the next chunk. A chunk that would take the
    /// stream past the declared length is rejected; a chunk that does
    /// not yet complete an alignment block is only accumulated, so it
    /// cannot fail at all.
    pub fn push(&mut self, chunk: &[u8]) -> (r: Result<(), Error>)
        requires
            old(self).wf(),
        ensures
            final(self).declared == old(self).declared,
            final(self).sink.capacity() == old(self).sink.capacity(),
            (old(self).fed@.len() + chunk@.len() <= old(self).declared && old(self).carry@.len()
                + chunk@.len() < OTA_ALIGNMENT) ==> r is Ok,
            match r {
                Ok(u) => final(self).wf() && final(self).fed@ == old(self).fed@ + chunk@,
                Err(e) => {
                    &&& (e == Error::BadRequest <==> old(self).fed@.len() + chunk@.len() > old(
                        self,
                    ).declared)
                    &&& (e == Error::BadRequest ==> *final(self) == *old(self))
                    &&& (e matches Error::Storage(_) ==> old(self).carry@.len() + chunk@.len()
                        >= OTA_ALIGNMENT)
                    &&& (e matches Error::Storage(_) || e == Error::BadRequest)
                },
            },
    {
        if chunk.len() > self.declared - self.received {
            return Err(Error::BadRequest);
        }
        self.carry.extend_from_slice(chunk);
        self.received = self.received + chunk.len();
        proof {
            self.fed = Ghost(self.fed@ + chunk@);
        }
        let writable = (self.carry.len() / OTA_ALIGNMENT) * OTA_ALIGNMENT;
        if writable > 0 {
            let ghost data0 = self.sink.data();
            let ghost carry0 = self.carry@;
            let head = vstd::slice::slice_subrange(self.carry.as_slice(), 0, writable);
            match self.sink.write(head) {
                Ok(u) => {},
                Err(e) => {
                    return Err(e);
                },
            }
            let mut rest: Vec<u8> = Vec::new();
            let mut j: usize = writable;
            while j < self.carry.len()
                invariant
                    writable <= j <= self.carry@.len(),
                    self.carry@ == carry0,
                    rest@ == carry0.subrange(writable as int, j as int),
                decreases self.carry@.len() - j,
            {
                let b = self.carry[j];
                rest.push(b);
                proof {
                    assert(rest@ =~= carry0.subrange(writable as int, j + 1));
                }
                j = j + 1;
            }
            self.carry = rest;
            proof {
                assert(self.carry@ =~= carry0.skip(writable as int));
                assert(self.sink.data() == data0 + carry0.take(writable as int));
                assert(self.sink.data() + self.carry@ =~= data0 + carry0);
                assert(self.sink.data().len() % 4 == 0) by {
                    assert(data0.len() % 4 == 0);
                    assert(writable % 4 == 0) by {
                        let c = carry0.len() as int;
                    }
                }
            }
        }
        proof {
            assert(self.sink.data() + self.carry@ =~= self.fed@);
        }
        Ok(())
    }

    /// Ends the stream: flushes any remaining bytes as one final,
    /// possibly unaligned write (the trailing partial block is written
    /// as it is, not zero-padded), checks that exactly the declared
    /// number of bytes arrived, and only then emits the new boot
    /// configuration: the previously inactive slot becomes active,
    /// marked pending first-boot validation. On any failure no boot
    /// configuration is emitted, so the previously active partition
    /// stays bootable. With a matching byte count and nothing left to
    /// flush, nothing can fail and the activation is owed.
    pub fn finish_and_activate(&mut self, current: BootSlots) -> (r: Result<BootSlots, Error>)
        requires
            old(self).wf(),
        ensures
            (old(self).fed@.len() == old(self).declared && old(self).carry@.len() == 0) ==> r
                is Ok,
            match r {
                Ok(slots) => {
                    &&& old(self).fed@.len() == old(self).declared
                    &&& final(self).sink.data() == old(self).fed@
                    &&& final(self).sink.data().len() == old(self).declared
                    &&& slots.active == other_slot(current.active)
                    &&& slots.pending_validation
                },
                Err(e) => {
                    &&& (e == Error::BadRequest <==> old(self).fed@.len() != old(self).declared)
                    &&& (e == Error::BadRequest ==> *final(self) == *old(self))
                    &&& (e matches Error::Storage(_) || e == Error::BadRequest)
                },
            },
    {
        if self.received != self.declared {
            return Err(Error::BadRequest);
        }
        if self.carry.len() > 0 {
            let ghost data0 = self.sink.data();
            let tail = vstd::slice::slice_subrange(self.carry.as_slice(), 0, self.carry.len());
            match self.sink.write(tail) {
                Ok(u) => {},
                Err(e) => {
                    return Err(e);
                },
            }
            self.carry = Vec::new();
            proof {
                assert(self.sink.data() =~= self.fed@);
            }
        } else {
            proof {
                assert(self.sink.data() =~= self.fed@);
            }
        }
        Ok(
            BootSlots {
                active: match current.active {
                    Slot::A => Slot::B,
                    Slot::B => Slot::A,
                },
                pending_validation: true,
            },
        )
    }
}

} // verus!
