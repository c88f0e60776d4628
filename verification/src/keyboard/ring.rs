//! Trusted interface to the `ringbuffer` crate's `AllocRingBuffer`, the
//! fixed-capacity queue holding each key's recent velocity samples.
//!
//! The buffer's contents are modelled as a sequence, oldest first, and its
//! configured capacity as a number; both come from the crate's documented
//! behaviour: `new` makes an empty buffer of the given capacity, `enqueue`
//! appends and drops the oldest element once the buffer is full, and
//! iteration runs from the oldest element to the newest.

use vstd::prelude::*;

use ringbuffer::RingBuffer;

verus! {

#[verifier::external_type_specification]
#[verifier::external_body]
#[verifier::reject_recursive_types(T)]
pub struct ExAllocRingBuffer<T>(ringbuffer::AllocRingBuffer<T>);

/// The elements the buffer holds, oldest first.
pub uninterp spec fn ring_model(rb: ringbuffer::AllocRingBuffer<i32>) -> Seq<i32>;

/// The capacity the buffer was made with.
pub uninterp spec fn ring_cap(rb: ringbuffer::AllocRingBuffer<i32>) -> nat;

/// Relies on `AllocRingBuffer::new`: an empty buffer of the given capacity.
/// `new` panics on a capacity of zero, so that input is excluded.
#[verifier::external_body]
pub fn ring_new(capacity: usize) -> (rb: ringbuffer::AllocRingBuffer<i32>)
    requires
        capacity >= 1,
    ensures
        ring_model(rb) == Seq::<i32>::empty(),
        ring_cap(rb) == capacity,
{
    ringbuffer::AllocRingBuffer::new(capacity)
}

/// Relies on `RingBuffer::enqueue`: appends at the newest end, dropping the
/// oldest element first when the buffer is already full.
#[verifier::external_body]
pub fn ring_enqueue(rb: &mut ringbuffer::AllocRingBuffer<i32>, value: i32)
    ensures
        ring_cap(*final(rb)) == ring_cap(*old(rb)),
        ring_model(*final(rb)) == if ring_model(*old(rb)).len() < ring_cap(*old(rb)) {
            ring_model(*old(rb)).push(value)
        } else {
            ring_model(*old(rb)).drop_first().push(value)
        },
{
    let _ = rb.enqueue(value);
}

/// Relies on `RingBuffer::capacity`.
#[verifier::external_body]
pub fn ring_capacity(rb: &ringbuffer::AllocRingBuffer<i32>) -> (r: usize)
    ensures
        r == ring_cap(*rb),
{
    rb.capacity()
}

/// Relies on `RingBuffer::to_vec`, which copies the elements out in
/// iteration order: oldest first.
#[verifier::external_body]
pub fn ring_to_vec(rb: &ringbuffer::AllocRingBuffer<i32>) -> (r: Vec<i32>)
    ensures
        r@ == ring_model(*rb),
{
    rb.to_vec()
}

} // verus!
