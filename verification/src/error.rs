//! The library's error taxonomy: every fallible operation returns one of
//! these typed values so callers can map them to their own responses.

use vstd::prelude::*;

verus! {

/// What went wrong at the flash medium or inside the stored log.
#[derive(Clone, Copy, Debug, PartialEq, Eq, Structural)]
pub enum StorageFault {
    /// The flash driver reported an input/output failure.
    Io,
    /// The region has no room left for another record.
    Full,
    /// The stored log does not parse as a sequence of records.
    Corrupted,
    /// A caller-provided buffer could not hold a record.
    BufferTooSmall,
    /// A record would not fit in the region even when empty.
    ItemTooBig,
}

/// What went wrong on the serial link to the panel.
#[derive(Clone, Copy, Debug, PartialEq, Eq, Structural)]
pub enum TransportFault {
    /// The write or the acknowledgement read exceeded its bounded timeout.
    Timeout,
    /// The panel answered with a negative acknowledgement.
    Nack,
    /// The panel's answer was not a recognizable acknowledgement frame.
    Malformed,
}

/// Error type for the application.
#[derive(Clone, Copy, Debug, PartialEq, Eq, Structural)]
pub enum Error {
    /// Storage-related errors.
    Storage(StorageFault),
    /// Serial-transport errors.
    Transport(TransportFault),
    /// Internal invariant violation, such as a message too long after escaping.
    Internal,
    /// Read of an id with no live record.
    NotFound,
    /// Invalid input: an id out of range, a wrong content type, or a zero or
    /// oversize declared length.
    BadRequest,
}

} // verus!
