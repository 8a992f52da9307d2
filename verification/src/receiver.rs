//! The frame assembler and decode pipeline: byte-by-byte accumulation
//! gated on the start marker, sliding resynchronization inside a fixed
//! 25-byte window, checksum validation, channel extraction, and scaling.

use vstd::prelude::*;
use crate::byte_queue::ByteQueue;
use crate::byte_queue::queued_bytes;
use crate::channels::Channels;
use crate::frame::CHANNEL_COUNT;
use crate::frame::FRAME_LENGTH;
use crate::frame::SBUS_START_BYTE;
use crate::frame::channel_magnitude;
use crate::frame::decoded_channels;
use crate::frame::frame_valid;
use crate::frame::scale_spec;
use crate::frame::scaled_channels;
use crate::frame::xor_up_to;

verus! {

broadcast use vstd::array::group_array_axioms;

/// One assembler step on the buffered bytes: a byte arriving at an empty
/// buffer is discarded unless it is the start marker; otherwise it is
/// appended, evicting the oldest byte when the buffer already holds a
/// full frame's worth.
pub open spec fn assembler_step(buf: Seq<u8>, b: u8) -> Seq<u8> {
    if buf.len() == 0 && b != SBUS_START_BYTE {
        buf
    } else if buf.len() < FRAME_LENGTH as nat {
        buf.push(b)
    } else {
        buf.skip(1).push(b)
    }
}

/// The buffer left after feeding `bytes` one at a time into a buffer
/// currently holding `buf`.
pub open spec fn feed(buf: Seq<u8>, bytes: Seq<u8>) -> Seq<u8>
    decreases bytes.len(),
{
    if bytes.len() == 0 {
        buf
    } else {
        feed(assembler_step(buf, bytes[0]), bytes.skip(1))
    }
}

/// SBUS frame parser: recovers aligned 25-byte frames from an unbounded
/// byte stream using only a fixed-capacity buffer.
pub struct SbusReceiver {
    buffer: ByteQueue,
}

impl View for SbusReceiver {
    type V = Seq<u8>;

    closed spec fn view(&self) -> Seq<u8> {
        queued_bytes(self.buffer)
    }
}

impl SbusReceiver {
    /// The buffer never holds more than one frame's worth of bytes.
    pub open spec fn wf(&self) -> bool {
        self@.len() <= FRAME_LENGTH as nat
    }

    pub fn new() -> (r: SbusReceiver)
        ensures
            r.wf(),
            r@ == Seq::<u8>::empty(),
    {
        SbusReceiver { buffer: ByteQueue::new() }
    }

    /// Push one byte; returns true exactly when a full frame's worth of
    /// bytes is buffered afterwards.
    pub fn process_byte(&mut self, byte: u8) -> (ready: bool)
        requires
            old(self).wf(),
        ensures
            final(self).wf(),
            final(self)@ == assembler_step(old(self)@, byte),
            ready == (final(self)@.len() >= FRAME_LENGTH as nat),
    {
        if self.buffer.len() == 0 && byte != SBUS_START_BYTE {
            return false;
        }
        if self.buffer.push_back(byte).is_err() {
            let _ = self.buffer.pop_front();
            let _ = self.buffer.push_back(byte);
        }
        self.buffer.len() >= FRAME_LENGTH
    }

    /// Remove and return the 25 oldest buffered bytes as one frame, in
    /// arrival order, leaving the buffer empty; `None` while fewer than
    /// 25 bytes are buffered.
    pub fn take_frame(&mut self) -> (r: Option<[u8; FRAME_LENGTH]>)
        requires
            old(self).wf(),
        ensures
            final(self).wf(),
            old(self)@.len() < FRAME_LENGTH as nat ==> r is None
                && final(self)@ == old(self)@,
            old(self)@.len() == FRAME_LENGTH as nat ==> (r matches Some(f)
                && f@ == old(self)@ && final(self)@ == Seq::<u8>::empty()),
    {
        if self.buffer.len() < FRAME_LENGTH {
            return None;
        }
        let mut frame: [u8; FRAME_LENGTH] = [0u8; FRAME_LENGTH];
        let mut i: usize = 0;
        while i < FRAME_LENGTH
            invariant
                i <= FRAME_LENGTH,
                old(self)@.len() == FRAME_LENGTH as nat,
                self@ == old(self)@.skip(i as int),
                forall|j: int| 0 <= j < i as int ==> frame@[j] == old(self)@[j],
            decreases FRAME_LENGTH - i,
        {
            let b = self.buffer.pop_front();
            frame[i] = b.unwrap();
            i += 1;
            proof {
                assert(old(self)@.skip(i - 1).skip(1) =~= old(self)@.skip(i as int));
            }
        }
        proof {
            assert(frame@ =~= old(self)@);
            assert(self@ =~= Seq::<u8>::empty());
        }
        Some(frame)
    }

    /// Whether byte 23 of `frame` equals the XOR of bytes 0 through 22,
    /// the sole integrity gate before a payload is trusted.
    pub fn validate_checksum(frame: &[u8; FRAME_LENGTH]) -> (r: bool)
        ensures
            r == frame_valid(frame@),
    {
        let mut cs: u8 = 0;
        let mut i: usize = 0;
        while i < 23
            invariant
                i <= 23,
                cs == xor_up_to(frame@, i as int),
            decreases 23 - i,
        {
            cs = cs ^ frame[i];
            i += 1;
        }
        cs == frame[23]
    }

    /// Decode the 16 raw channel magnitudes of a validated frame and
    /// write them into the store as one batch. Byte offsets are bounded
    /// to the frame: the nominal two-byte-per-channel layout outruns the
    /// 25-byte frame after channel 11, and those channels decode to 0.
    pub fn extract_channels(frame: &[u8; FRAME_LENGTH], out: &mut Channels)
        ensures
            final(out)@ == decoded_channels(frame@),
    {
        let mut ch: [u16; CHANNEL_COUNT] = [0u16; CHANNEL_COUNT];
        let mut i: usize = 0;
        while i < CHANNEL_COUNT
            invariant
                i <= CHANNEL_COUNT,
                forall|j: int| 0 <= j < i as int ==> ch@[j] == channel_magnitude(frame@, j),
                forall|j: int| i as int <= j < CHANNEL_COUNT as int ==> ch@[j] == 0u16,
            decreases CHANNEL_COUNT - i,
        {
            if 2 * i + 2 < FRAME_LENGTH {
                let hi = frame[2 * i + 1];
                let lo = frame[2 * i + 2];
                ch[i] = combine_bytes(hi, lo);
            }
            i += 1;
        }
        proof {
            assert(ch@ =~= decoded_channels(frame@));
        }
        out.update(ch);
    }

    /// Scale all 16 raw magnitudes into the [1000, 2000] pulse-width
    /// range.
    pub fn scale_1000_2000(&self, ch: &[u16; CHANNEL_COUNT]) -> (out: [u16; CHANNEL_COUNT])
        ensures
            out@ == scaled_channels(ch@),
    {
        let mut out: [u16; CHANNEL_COUNT] = [1500u16; CHANNEL_COUNT];
        let mut i: usize = 0;
        while i < CHANNEL_COUNT
            invariant
                i <= CHANNEL_COUNT,
                forall|j: int| 0 <= j < i as int ==> out@[j] == scale_spec(ch@[j]),
            decreases CHANNEL_COUNT - i,
        {
            let v = ch[i];
            let q: u32 = (v as u32) * 1000 / 2047;
            let s: u32 = 1000 + q;
            out[i] = if s > 2000 {
                2000u16
            } else {
                s as u16
            };
            i += 1;
        }
        proof {
            assert(out@ =~= scaled_channels(ch@));
        }
        out
    }
}

/// Combine a big-endian byte pair into one 16-bit magnitude.
fn combine_bytes(hi: u8, lo: u8) -> (r: u16)
    ensures
        r == hi * 0x100 + lo,
{
    let r: u16 = ((hi as u16) << 8) | (lo as u16);
    proof {
        let x = hi as u16;
        let y = lo as u16;
        assert(x < 256 && y < 256 ==> ((x << 8) | y) == x * 256 + y) by (bit_vector);
    }
    r
}

/// Alignment-gate law: while the buffer is empty, bytes other than the
/// start marker are discarded, so a stream that never delivers the start
/// marker to an empty buffer leaves the buffer empty — and the assembler
/// never reports a frame ready. Applies to every prefix of `bytes`, so
/// nothing is buffered at any intermediate step either.
pub proof fn lemma_alignment_gate(bytes: Seq<u8>)
    requires
        forall|i: int| 0 <= i < bytes.len() ==> bytes[i] != SBUS_START_BYTE,
    ensures
        feed(Seq::empty(), bytes) == Seq::<u8>::empty(),
    decreases bytes.len(),
{
    if bytes.len() > 0 {
        assert(forall|i: int|
            0 <= i < bytes.skip(1).len() ==> bytes.skip(1)[i] != SBUS_START_BYTE);
        lemma_alignment_gate(bytes.skip(1));
    }
}

/// Bounded-buffer law: feeding any number of bytes never grows the
/// buffer beyond one frame's worth.
pub proof fn lemma_buffer_bounded(buf: Seq<u8>, bytes: Seq<u8>)
    requires
        buf.len() <= FRAME_LENGTH as nat,
    ensures
        feed(buf, bytes).len() <= FRAME_LENGTH as nat,
    decreases bytes.len(),
{
    if bytes.len() > 0 {
        lemma_buffer_bounded(assembler_step(buf, bytes[0]), bytes.skip(1));
    }
}

/// Sliding-resynchronization law: once the buffer is full, it always
/// holds exactly the 25 most recently delivered bytes, whatever arrives.
pub proof fn lemma_sliding_window(buf: Seq<u8>, bytes: Seq<u8>)
    requires
        buf.len() == FRAME_LENGTH as nat,
    ensures
        feed(buf, bytes) == (buf + bytes).skip(bytes.len() as int),
    decreases bytes.len(),
{
    if bytes.len() == 0 {
        assert((buf + bytes).skip(0) =~= buf);
    } else {
        let stepped = assembler_step(buf, bytes[0]);
        assert(stepped.len() == FRAME_LENGTH as nat);
        lemma_sliding_window(stepped, bytes.skip(1));
        assert((stepped + bytes.skip(1)) =~= (buf + bytes).skip(1));
        assert(((buf + bytes).skip(1)).skip(bytes.len() - 1)
            =~= (buf + bytes).skip(bytes.len() as int));
    }
}

/// Feeding one more byte after a run of bytes is one more assembler step.
proof fn lemma_feed_snoc(buf: Seq<u8>, s: Seq<u8>, b: u8)
    ensures
        feed(buf, s.push(b)) == assembler_step(feed(buf, s), b),
    decreases s.len(),
{
    assert(feed(buf, s.push(b))
        == feed(assembler_step(buf, s.push(b)[0]), s.push(b).skip(1)));
    if s.len() == 0 {
        assert(s.push(b)[0] == b);
        assert(s.push(b).skip(1) =~= Seq::<u8>::empty());
    } else {
        assert(s.push(b)[0] == s[0]);
        assert(s.push(b).skip(1) =~= s.skip(1).push(b));
        lemma_feed_snoc(assembler_step(buf, s[0]), s.skip(1), b);
    }
}

/// Exact-frame law: feeding the 25 bytes of a frame that begins with the
/// start marker into an empty buffer buffers exactly the bytes delivered
/// so far — so the assembler reports ready for the first time on the
/// 25th byte, and `take_frame` then returns the identical frame.
pub proof fn lemma_exact_frame(f: Seq<u8>, k: int)
    requires
        f.len() == FRAME_LENGTH as nat,
        f[0] == SBUS_START_BYTE,
        0 <= k <= FRAME_LENGTH as int,
    ensures
        feed(Seq::empty(), f.take(k)) == f.take(k),
    decreases k,
{
    if k > 0 {
        lemma_exact_frame(f, k - 1);
        assert(f.take(k) =~= f.take(k - 1).push(f[k - 1]));
        lemma_feed_snoc(Seq::empty(), f.take(k - 1), f[k - 1]);
        assert(assembler_step(f.take(k - 1), f[k - 1]) =~= f.take(k));
    }
}

}
