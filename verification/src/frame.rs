//! Pure frame-level definitions: the wire layout constants, the XOR
//! checksum, per-channel magnitude extraction, and pulse-width scaling,
//! together with their laws.

use vstd::prelude::*;
use vstd::arithmetic::div_mod::lemma_div_is_ordered;
use vstd::arithmetic::div_mod::lemma_div_pos_is_pos;
use vstd::arithmetic::mul::lemma_mul_inequality;

verus! {

/// A frame is exactly 25 bytes on the wire.
pub const FRAME_LENGTH: usize = 25;

/// Every frame begins with this start-marker byte.
pub const SBUS_START_BYTE: u8 = 0x0F;

/// Number of control channels carried by one frame.
pub const CHANNEL_COUNT: usize = 16;

/// XOR of the first `n` bytes of `s`.
pub open spec fn xor_up_to(s: Seq<u8>, n: int) -> u8
    recommends
        n <= s.len(),
    decreases n,
{
    if n <= 0 {
        0u8
    } else {
        xor_up_to(s, n - 1) ^ s[n - 1]
    }
}

/// A frame is intact when its byte 23 equals the XOR of bytes 0 through 22.
pub open spec fn frame_valid(f: Seq<u8>) -> bool
    recommends
        f.len() == FRAME_LENGTH as nat,
{
    f[23] == xor_up_to(f, 23)
}

/// Raw magnitude of channel `i`: the big-endian 16-bit value at byte
/// offsets `(2 i + 1, 2 i + 2)`. The nominal layout would place channels
/// up to byte offset 32, past the end of the 25-byte frame; offsets are
/// therefore bounded to the frame, and a channel whose bytes would fall
/// outside it decodes to 0.
pub open spec fn channel_magnitude(f: Seq<u8>, i: int) -> u16
    recommends
        f.len() == FRAME_LENGTH as nat,
        0 <= i < CHANNEL_COUNT as int,
{
    if 2 * i + 2 < FRAME_LENGTH as int {
        (f[2 * i + 1] * 0x100 + f[2 * i + 2]) as u16
    } else {
        0u16
    }
}

/// The 16 raw channel magnitudes carried by a frame.
pub open spec fn decoded_channels(f: Seq<u8>) -> Seq<u16>
    recommends
        f.len() == FRAME_LENGTH as nat,
{
    Seq::new(CHANNEL_COUNT as nat, |i: int| channel_magnitude(f, i))
}

/// `1000 + floor(v * 1000 / 2047)`, clamped to the closed interval
/// [1000, 2000]. The value before clamping is never below 1000, so only
/// the upper bound can bite.
pub open spec fn scale_spec(v: u16) -> u16 {
    let s = 1000 + (v as int) * 1000 / 2047;
    if s > 2000 {
        2000u16
    } else {
        s as u16
    }
}

/// Every channel of `s` scaled independently.
pub open spec fn scaled_channels(s: Seq<u16>) -> Seq<u16> {
    Seq::new(s.len(), |i: int| scale_spec(s[i]))
}

/// The XOR of a prefix depends only on the bytes of that prefix.
proof fn lemma_xor_prefix_agree(s1: Seq<u8>, s2: Seq<u8>, n: int)
    requires
        n <= s1.len(),
        n <= s2.len(),
        forall|i: int| 0 <= i < n ==> s1[i] == s2[i],
    ensures
        xor_up_to(s1, n) == xor_up_to(s2, n),
    decreases n,
{
    if n > 0 {
        lemma_xor_prefix_agree(s1, s2, n - 1);
    }
}

/// Replacing the byte at `j < n` XORs the old and the new byte into the
/// prefix checksum.
proof fn lemma_xor_update(s: Seq<u8>, j: int, v: u8, n: int)
    requires
        0 <= j < n <= s.len(),
    ensures
        xor_up_to(s.update(j, v), n) == xor_up_to(s, n) ^ s[j] ^ v,
    decreases n,
{
    let t = s.update(j, v);
    let a = xor_up_to(s, n - 1);
    let b = s[j];
    if j == n - 1 {
        lemma_xor_prefix_agree(t, s, n - 1);
        assert(a ^ v == a ^ b ^ b ^ v) by (bit_vector);
    } else {
        lemma_xor_update(s, j, v, n - 1);
        let c = s[n - 1];
        assert(a ^ b ^ v ^ c == a ^ c ^ b ^ v) by (bit_vector);
    }
}

/// Round-trip law: closing any 23-byte region with its own XOR as byte 23
/// yields a valid frame, whatever the trailer byte is.
pub proof fn lemma_checksum_roundtrip(region: Seq<u8>, trailer: u8)
    requires
        region.len() == 23,
    ensures
        frame_valid(region.push(xor_up_to(region, 23)).push(trailer)),
{
    let f = region.push(xor_up_to(region, 23)).push(trailer);
    lemma_xor_prefix_agree(f, region, 23);
}

/// Tamper-evidence law: flipping any single bit of any of bytes 0
/// through 23 of a valid frame makes the checksum check fail.
pub proof fn lemma_checksum_bit_flip(f: Seq<u8>, j: int, k: u8)
    requires
        f.len() == FRAME_LENGTH as nat,
        0 <= j <= 23,
        k < 8,
        frame_valid(f),
    ensures
        !frame_valid(f.update(j, f[j] ^ (1u8 << k))),
{
    let m = 1u8 << k;
    assert(m != 0) by (bit_vector)
        requires
            m == 1u8 << k && k < 8,
    ;
    let g = f.update(j, f[j] ^ m);
    if j == 23 {
        lemma_xor_prefix_agree(g, f, 23);
        let x = f[23];
        assert(x ^ m != x) by (bit_vector)
            requires
                m != 0,
        ;
    } else {
        lemma_xor_update(f, j, f[j] ^ m, 23);
        let a = xor_up_to(f, 23);
        let b = f[j];
        assert(a ^ b ^ (b ^ m) != a) by (bit_vector)
            requires
                m != 0,
        ;
    }
}

/// Scaling always lands in the closed interval [1000, 2000].
pub proof fn lemma_scale_bounds(v: u16)
    ensures
        1000 <= scale_spec(v),
        scale_spec(v) <= 2000,
{
    lemma_div_pos_is_pos((v as int) * 1000, 2047);
}

/// Scaling is non-decreasing over increasing raw magnitudes.
pub proof fn lemma_scale_monotonic(a: u16, b: u16)
    requires
        a <= b,
    ensures
        scale_spec(a) <= scale_spec(b),
{
    lemma_mul_inequality(a as int, b as int, 1000);
    lemma_div_is_ordered((a as int) * 1000, (b as int) * 1000, 2047);
    lemma_scale_bounds(a);
    lemma_scale_bounds(b);
}

}
