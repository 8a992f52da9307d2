//! The channel store: the 16 most recently decoded raw channel
//! magnitudes. Reading is public; writing is restricted to the decode
//! pipeline (`SbusReceiver::extract_channels`), which replaces all 16
//! values as one batch, so no reader ever observes a partial update.

use vstd::prelude::*;
use crate::frame::CHANNEL_COUNT;

verus! {

broadcast use vstd::array::group_array_axioms;

/// Strongly typed container of the 16 raw channel magnitudes.
pub struct Channels([u16; CHANNEL_COUNT]);

impl View for Channels {
    type V = Seq<u16>;

    closed spec fn view(&self) -> Seq<u16> {
        self.0@
    }
}

impl Channels {
    /// A fresh store holds zero for every channel.
    pub fn new() -> (r: Channels)
        ensures
            r@.len() == CHANNEL_COUNT as nat,
            forall|i: int| 0 <= i < CHANNEL_COUNT as int ==> r@[i] == 0u16,
    {
        Channels([0u16; CHANNEL_COUNT])
    }

    /// Crate-only write path: replaces all 16 values atomically with a
    /// freshly decoded batch.
    pub(crate) fn update(&mut self, new: [u16; CHANNEL_COUNT])
        ensures
            final(self)@ == new@,
    {
        self.0 = new;
    }

    /// Read-only access: the value at `idx`, or `None` past the last
    /// channel.
    pub fn channel(&self, idx: usize) -> (r: Option<u16>)
        ensures
            r == (if idx < CHANNEL_COUNT {
                Option::<u16>::Some(self@[idx as int])
            } else {
                Option::<u16>::None
            }),
    {
        if idx < CHANNEL_COUNT {
            Some(self.0[idx])
        } else {
            None
        }
    }
}

}
