//! Trusted boundary around `heapless::Deque<u8, 25>`, the fixed-capacity
//! FIFO byte buffer behind the frame assembler. The deque itself is opaque
//! to the verifier (its storage type is private to `heapless`), so it is
//! held in an opaque struct and verified code reaches it only through the
//! contracts below, stated over `queued_bytes`.

use vstd::prelude::*;
use crate::frame::FRAME_LENGTH;

verus! {

/// Fixed-capacity FIFO byte buffer backed by `heapless::Deque<u8, 25>`:
/// stack-allocated, never grows past its capacity of 25 bytes.
#[verifier::external_body]
pub struct ByteQueue {
    inner: heapless::Deque<u8, FRAME_LENGTH>,
}

/// The bytes currently buffered in the queue, oldest first.
pub uninterp spec fn queued_bytes(q: ByteQueue) -> Seq<u8>;

impl ByteQueue {
    /// Relies on `heapless::Deque::new`: constructs an empty deque.
    #[verifier::external_body]
    pub fn new() -> (q: ByteQueue)
        ensures
            queued_bytes(q) == Seq::<u8>::empty(),
    {
        ByteQueue { inner: heapless::Deque::new() }
    }

    /// Relies on `heapless::Deque::len`: the number of buffered elements,
    /// which never exceeds the capacity the deque was declared with (25).
    #[verifier::external_body]
    pub fn len(&self) -> (n: usize)
        ensures
            n == queued_bytes(*self).len(),
            n <= FRAME_LENGTH,
    {
        self.inner.len()
    }

    /// Relies on `heapless::Deque::push_back`: appends to the back when
    /// there is room, and hands the element back in `Err` when the deque
    /// is full, leaving it unchanged.
    #[verifier::external_body]
    pub fn push_back(&mut self, b: u8) -> (r: Result<(), u8>)
        ensures
            r == (if queued_bytes(*old(self)).len() < FRAME_LENGTH {
                Result::<(), u8>::Ok(())
            } else {
                Result::<(), u8>::Err(b)
            }),
            queued_bytes(*final(self)) == (if queued_bytes(*old(self)).len() < FRAME_LENGTH {
                queued_bytes(*old(self)).push(b)
            } else {
                queued_bytes(*old(self))
            }),
    {
        self.inner.push_back(b)
    }

    /// Relies on `heapless::Deque::pop_front`: removes and returns the
    /// oldest element, or returns `None` on an empty deque.
    #[verifier::external_body]
    pub fn pop_front(&mut self) -> (r: Option<u8>)
        ensures
            r == (if queued_bytes(*old(self)).len() == 0 {
                Option::<u8>::None
            } else {
                Option::<u8>::Some(queued_bytes(*old(self))[0])
            }),
            queued_bytes(*final(self)) == (if queued_bytes(*old(self)).len() == 0 {
                queued_bytes(*old(self))
            } else {
                queued_bytes(*old(self)).skip(1)
            }),
    {
        self.inner.pop_front()
    }
}

}
