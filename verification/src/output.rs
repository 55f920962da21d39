//! The byte ring between a decoder, which writes output bytes, and an output
//! callback, which drains them, often on another thread.
use vstd::prelude::*;
use ringbuf::traits::{Consumer, Producer, Split};
use ringbuf::{HeapCons, HeapProd, HeapRb};

verus! {

/// Write end of a ring made by [`create_output`], holding a `ringbuf`
/// `HeapProd<u8>`.
#[verifier::external_body]
pub struct AudioProducer {
    inner: HeapProd<u8>,
}

/// Read end of a ring made by [`create_output`], holding a `ringbuf`
/// `HeapCons<u8>`.
#[verifier::external_body]
pub struct AudioConsumer {
    inner: HeapCons<u8>,
}

/// The number of bytes the ring behind a write end was made to hold.
pub uninterp spec fn producer_capacity(p: AudioProducer) -> nat;

/// The number of bytes the ring behind a read end was made to hold.
pub uninterp spec fn consumer_capacity(c: AudioConsumer) -> nat;

impl AudioProducer {
    /// Calls `ringbuf`'s `Producer::push_slice`: copies the first bytes of
    /// `bytes`, as many as the ring has room for, to its tail, and returns how
    /// many. The room depends on what the read end, which may run on another
    /// thread, has taken out, so the count is not stated beyond its bounds.
    #[verifier::external_body]
    pub fn push_slice(&mut self, bytes: &[u8]) -> (n: usize)
        ensures
            n <= bytes@.len(),
            n <= producer_capacity(*old(self)),
            producer_capacity(*final(self)) == producer_capacity(*old(self)),
    {
        self.inner.push_slice(bytes)
    }
}

impl AudioConsumer {
    /// Calls `ringbuf`'s `Consumer::pop_slice`: moves the oldest bytes of the
    /// ring, as many as are queued and fit, to the front of `bytes`, and
    /// returns how many. What is queued depends on the write end, which may
    /// run on another thread, so neither the count nor the bytes are stated
    /// beyond their bounds; the rest of `bytes` is left as it was.
    #[verifier::external_body]
    pub fn pop_slice(&mut self, bytes: &mut [u8]) -> (n: usize)
        ensures
            n <= old(bytes)@.len(),
            n <= consumer_capacity(*old(self)),
            final(bytes)@.len() == old(bytes)@.len(),
            final(bytes)@.subrange(n as int, old(bytes)@.len() as int) == old(bytes)@.subrange(
                n as int,
                old(bytes)@.len() as int,
            ),
            consumer_capacity(*final(self)) == consumer_capacity(*old(self)),
    {
        self.inner.pop_slice(bytes)
    }
}

/// Calls `ringbuf`'s `HeapRb::new` and `split`: an empty ring of `capacity`
/// bytes, as its write end and its read end. `HeapRb::new` panics on a
/// capacity of zero.
#[verifier::external_body]
pub fn create_output(capacity: usize) -> (r: (AudioProducer, AudioConsumer))
    requires
        capacity > 0,
    ensures
        producer_capacity(r.0) == capacity,
        consumer_capacity(r.1) == capacity,
{
    let (prod, cons) = HeapRb::<u8>::new(capacity).split();
    (AudioProducer { inner: prod }, AudioConsumer { inner: cons })
}

} // verus!
