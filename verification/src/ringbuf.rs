//! Trusted boundary to the `ringbuffer` crate.  The frame-timing counter
//! keeps its rolling window of frame times in an `AllocRingBuffer`; these
//! wrappers state what that crate's source shows of the buffer.

use ringbuffer::AllocRingBuffer;
use ringbuffer::RingBuffer;
use vstd::prelude::*;

verus! {

#[verifier::external_type_specification]
#[verifier::external_body]
#[verifier::reject_recursive_types(T)]
pub struct ExAllocRingBuffer<T>(AllocRingBuffer<T>);

/// The values the buffer currently holds, oldest first.
pub uninterp spec fn ring_seq(rb: AllocRingBuffer<u64>) -> Seq<u64>;

/// The capacity the buffer was created with.
pub uninterp spec fn ring_cap(rb: AllocRingBuffer<u64>) -> nat;

/// Relies on AllocRingBuffer::new: an empty buffer of exactly the given
/// capacity.  The call panics on capacity zero, so that is ruled out here.
#[verifier::external_body]
pub(crate) fn ring_new(capacity: usize) -> (rb: AllocRingBuffer<u64>)
    requires
        capacity >= 1,
    ensures
        ring_seq(rb) == Seq::<u64>::empty(),
        ring_cap(rb) == capacity as nat,
{
    AllocRingBuffer::new(capacity)
}

/// Relies on RingBuffer::enqueue: the value is appended at the back, and
/// once the length has reached the capacity the oldest value is dropped.
#[verifier::external_body]
pub(crate) fn ring_push(rb: &mut AllocRingBuffer<u64>, value: u64)
    ensures
        ring_cap(*final(rb)) == ring_cap(*old(rb)),
        ring_seq(*final(rb)) == (if ring_seq(*old(rb)).len() < ring_cap(*old(rb)) {
            ring_seq(*old(rb)).push(value)
        } else {
            ring_seq(*old(rb)).drop_first().push(value)
        }),
{
    rb.enqueue(value);
}

/// Relies on RingBuffer::to_vec, built on its iterator: the held values,
/// oldest first.
#[verifier::external_body]
pub(crate) fn ring_items(rb: &AllocRingBuffer<u64>) -> (v: Vec<u64>)
    ensures
        v@ == ring_seq(*rb),
{
    rb.to_vec()
}

} // verus!
