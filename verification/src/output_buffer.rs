//! The byte accumulator that sits between a session's reader task and the
//! callers that poll for output.

use vstd::prelude::*;

verus! {

/// Bytes produced by a session and not yet handed to a caller.
///
/// The view is the pending bytes, oldest first.
pub struct OutputBuffer {
    bytes: Vec<u8>,
}

impl View for OutputBuffer {
    type V = Seq<u8>;

    closed spec fn view(&self) -> Seq<u8> {
        self.bytes@
    }
}

impl OutputBuffer {
    /// An empty buffer.
    pub fn new() -> (buffer: Self)
        ensures
            buffer@ == Seq::<u8>::empty(),
    {
        OutputBuffer { bytes: Vec::new() }
    }

    /// Number of pending bytes.
    pub fn len(&self) -> (n: usize)
        ensures
            n == self@.len(),
    {
        self.bytes.len()
    }

    /// Whether nothing is pending.
    pub fn is_empty(&self) -> (empty: bool)
        ensures
            empty == (self@.len() == 0),
    {
        self.bytes.len() == 0
    }

    /// Adds `chunk` behind everything already pending.
    pub fn append(&mut self, chunk: &[u8])
        ensures
            final(self)@ == old(self)@ + chunk@,
    {
        self.bytes.extend_from_slice(chunk);
        assert(self.bytes@ =~= old(self).bytes@ + chunk@);
    }

    /// Removes and returns everything pending, leaving the buffer empty.
    pub fn drain(&mut self) -> (taken: Vec<u8>)
        ensures
            taken@ == old(self)@,
            final(self)@ == Seq::<u8>::empty(),
    {
        let taken = self.bytes.split_off(0);
        assert(taken@ =~= old(self).bytes@);
        assert(self.bytes@ =~= Seq::<u8>::empty());
        taken
    }
}

} // verus!
