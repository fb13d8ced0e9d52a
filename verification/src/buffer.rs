//! A DMA-addressable byte buffer with a fixed capacity and a current valid
//! length.
//!
//! Exactly two of these exist for the lifetime of a streamer; they are never
//! copied, only moved between "being filled by the producer", "submitted as
//! in-flight payload", and "reclaimed as the next fill target".

use vstd::prelude::*;

verus! {

/// A byte buffer of fixed capacity. The first `length` bytes of the storage
/// are the valid content; a transfer transmits exactly those bytes.
pub struct Buffer {
    bytes: Vec<u8>,
    len: usize,
}

/// The raw storage always spans exactly the capacity.
pub broadcast proof fn lemma_raw_len(b: Buffer)
    ensures
        #[trigger] b.raw().len() == b.cap(),
{
}

impl Buffer {
    /// The fixed capacity in bytes; never changes after construction.
    pub closed spec fn cap(&self) -> nat {
        self.bytes@.len()
    }

    /// The current valid length, `0 <= length <= cap`.
    pub closed spec fn length(&self) -> nat {
        self.len as nat
    }

    /// The raw storage, all `cap` bytes of it.
    pub closed spec fn raw(&self) -> Seq<u8> {
        self.bytes@
    }

    /// The valid content: the first `length` bytes of the storage.
    pub open spec fn content(&self) -> Seq<u8> {
        self.raw().take(self.length() as int)
    }

    pub open spec fn wf(&self) -> bool {
        self.length() <= self.cap()
    }

    /// A fresh buffer of capacity `capacity` with no valid content.
    pub fn new(capacity: usize) -> (r: Buffer)
        ensures
            r.wf(),
            r.cap() == capacity,
            r.length() == 0,
    {
        let bytes: Vec<u8> = vec![0u8; capacity];
        Buffer { bytes, len: 0 }
    }

    pub fn capacity(&self) -> (r: usize)
        ensures
            r == self.cap(),
    {
        self.bytes.len()
    }

    pub fn len(&self) -> (r: usize)
        ensures
            r == self.length(),
    {
        self.len
    }

    /// Sets the valid length, e.g. to trim a final partial fill before
    /// submitting it.
    pub fn set_length(&mut self, n: usize)
        requires
            n <= old(self).cap(),
        ensures
            final(self).wf(),
            final(self).cap() == old(self).cap(),
            final(self).raw() == old(self).raw(),
            final(self).length() == n,
    {
        self.len = n;
    }

    /// Writes one byte of storage at position `i`, leaving the valid length
    /// unchanged.
    pub fn write(&mut self, i: usize, b: u8)
        requires
            old(self).wf(),
            i < old(self).cap(),
        ensures
            final(self).wf(),
            final(self).cap() == old(self).cap(),
            final(self).length() == old(self).length(),
            final(self).raw() == old(self).raw().update(i as int, b),
    {
        self.bytes[i] = b;
    }

    /// Reads one byte of storage at position `i`.
    pub fn read(&self, i: usize) -> (r: u8)
        requires
            i < self.cap(),
        ensures
            r == self.raw()[i as int],
    {
        self.bytes[i]
    }

    /// Copies the valid content out into a fresh vector.
    pub fn copy_content(&self) -> (v: Vec<u8>)
        requires
            self.wf(),
        ensures
            v@ == self.content(),
    {
        let mut v: Vec<u8> = Vec::new();
        let mut i: usize = 0;
        while i < self.len
            invariant
                self.wf(),
                i <= self.length(),
                v@ == self.raw().take(i as int),
            decreases self.length() - i,
        {
            v.push(self.bytes[i]);
            proof {
                assert(v@ =~= self.raw().take(i + 1 as int));
            }
            i = i + 1;
        }
        v
    }
}

} // verus!
