//! The capability interface to the serial link, and an in-memory
//! transport that records what was sent.
//!
//! A command frame is one atomic unit: an implementation delivers the
//! whole frame and reads the panel's acknowledgement within a bounded
//! timeout, reporting a timeout, a negative acknowledgement or a
//! malformed answer as a failure rather than logging it.

use vstd::prelude::*;
use vstd::slice::slice_to_vec;

use crate::error::TransportFault;

verus! {

/// The serial link to the panel: one frame/acknowledgement exchange in
/// flight at a time.
pub trait Transport: Sized {
    /// The frames delivered to the panel so far, in order.
    spec fn sent(&self) -> Seq<Seq<u8>>;

    /// Sends one frame and waits for the acknowledgement. On success
    /// exactly this frame was delivered after the earlier ones. On
    /// failure the device's state is unknown: the frame may or may not
    /// have reached it, and nothing else was delivered.
    fn send(&mut self, frame: &[u8]) -> (r: Result<(), TransportFault>)
        ensures
            match r {
                Ok(u) => final(self).sent() == old(self).sent().push(frame@),
                Err(f) => final(self).sent() == old(self).sent() || final(self).sent() == old(
                    self,
                ).sent().push(frame@),
            },
    ;
}

/// A transport that delivers every frame into memory: what was "sent"
/// can be inspected afterwards, and a fault can be injected to stand
/// in for a link that times out or answers with a negative
/// acknowledgement. It backs tests and dry runs.
pub struct RecordingTransport {
    frames: Vec<Vec<u8>>,
    refusal: Option<TransportFault>,
}

impl RecordingTransport {
    /// A transport that has sent nothing yet and refuses nothing.
    pub fn new() -> (r: Self)
        ensures
            r.sent() == Seq::<Seq<u8>>::empty(),
    {
        let frames: Vec<Vec<u8>> = Vec::new();
        proof {
            assert(frames@.map_values(|v: Vec<u8>| v@) =~= Seq::<Seq<u8>>::empty());
        }
        RecordingTransport { frames, refusal: None }
    }

    /// Makes every following send fail with the given fault, or
    /// succeed again when `None`. Nothing already sent changes.
    pub fn set_refusal(&mut self, refusal: Option<TransportFault>)
        ensures
            final(self).sent() == old(self).sent(),
    {
        self.refusal = refusal;
    }

    /// How many frames have been sent.
    pub fn frame_count(&self) -> (n: usize)
        ensures
            n == self.sent().len(),
    {
        self.frames.len()
    }

    /// The bytes of the frame sent at position `i`.
    pub fn frame_at(&self, i: usize) -> (r: &Vec<u8>)
        requires
            i < self.sent().len(),
        ensures
            r@ == self.sent()[i as int],
    {
        &self.frames[i]
    }
}

impl Transport for RecordingTransport {
    closed spec fn sent(&self) -> Seq<Seq<u8>> {
        self.frames@.map_values(|v: Vec<u8>| v@)
    }

    fn send(&mut self, frame: &[u8]) -> (r: Result<(), TransportFault>) {
        match self.refusal {
            Some(fault) => {
                return Err(fault);
            },
            None => {},
        }
        let copy = slice_to_vec(frame);
        self.frames.push(copy);
        proof {
            assert(self.frames@.map_values(|v: Vec<u8>| v@) =~= old(
                self,
            ).frames@.map_values(|v: Vec<u8>| v@).push(frame@));
        }
        Ok(())
    }
}

} // verus!
