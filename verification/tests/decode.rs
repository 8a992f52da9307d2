use sbus_core::Channels;
use sbus_core::SbusReceiver;

fn checksum(region: &[u8]) -> u8 {
    region.iter().fold(0, |a, &b| a ^ b)
}

fn build_frame(payload: [u8; 22], trailer: u8) -> [u8; 25] {
    let mut f = [0u8; 25];
    f[0] = 0x0F;
    f[1..23].copy_from_slice(&payload);
    f[23] = checksum(&f[0..23]);
    f[24] = trailer;
    f
}

/// The channel values a frame decodes to: big-endian pairs at offsets
/// (2i + 1, 2i + 2), zero once the offsets leave the 25-byte frame.
fn expected_channels(frame: &[u8; 25]) -> [u16; 16] {
    let mut ch = [0u16; 16];
    for (i, c) in ch.iter_mut().enumerate() {
        if 2 * i + 2 < 25 {
            *c = (frame[2 * i + 1] as u16) << 8 | frame[2 * i + 2] as u16;
        }
    }
    ch
}

#[test]
fn checksum_roundtrip_validates() {
    for seed in 0..5u8 {
        let mut payload = [0u8; 22];
        for (i, p) in payload.iter_mut().enumerate() {
            *p = seed.wrapping_mul(37).wrapping_add(i as u8 * 11);
        }
        let frame = build_frame(payload, seed);
        assert!(SbusReceiver::validate_checksum(&frame));
    }
}

#[test]
fn checksum_rejects_any_single_bit_flip() {
    let mut payload = [0u8; 22];
    for (i, p) in payload.iter_mut().enumerate() {
        *p = 200u8.wrapping_sub(i as u8 * 7);
    }
    let frame = build_frame(payload, 0x5A);
    assert!(SbusReceiver::validate_checksum(&frame));
    for j in 0..24 {
        for k in 0..8 {
            let mut tampered = frame;
            tampered[j] ^= 1u8 << k;
            assert!(
                !SbusReceiver::validate_checksum(&tampered),
                "flip of bit {k} in byte {j} must be caught"
            );
        }
    }
}

#[test]
fn store_starts_zeroed_and_rejects_out_of_range() {
    let store = Channels::new();
    for idx in 0..16 {
        assert_eq!(store.channel(idx), Some(0));
    }
    assert_eq!(store.channel(16), None);
    assert_eq!(store.channel(usize::MAX), None);
}

#[test]
fn extract_writes_whole_batch() {
    let mut payload = [0u8; 22];
    for (i, p) in payload.iter_mut().enumerate() {
        *p = i as u8 + 1;
    }
    let frame = build_frame(payload, 0x33);
    let mut store = Channels::new();
    SbusReceiver::extract_channels(&frame, &mut store);
    let expected = expected_channels(&frame);
    for idx in 0..16 {
        assert_eq!(store.channel(idx), Some(expected[idx]));
    }
}

#[test]
fn channels_past_frame_bound_decode_to_zero() {
    let frame = build_frame([0xFFu8; 22], 0x77);
    let mut store = Channels::new();
    SbusReceiver::extract_channels(&frame, &mut store);
    // Channel 11 is the last whose byte pair (offsets 23, 24) still lies
    // inside the frame; it reads the checksum and trailer bytes.
    let expect11 = (frame[23] as u16) << 8 | frame[24] as u16;
    assert_eq!(store.channel(11), Some(expect11));
    for idx in 12..16 {
        assert_eq!(store.channel(idx), Some(0));
    }
}

#[test]
fn scale_exact_values_and_clamp() {
    let rx = SbusReceiver::new();
    assert_eq!(rx.scale_1000_2000(&[0u16; 16])[0], 1000);
    assert_eq!(rx.scale_1000_2000(&[1023u16; 16])[0], 1499);
    assert_eq!(rx.scale_1000_2000(&[2047u16; 16])[0], 2000);
    assert_eq!(rx.scale_1000_2000(&[5000u16; 16])[0], 2000);
    assert_eq!(rx.scale_1000_2000(&[u16::MAX; 16])[0], 2000);
    // Mixed input: every slot scaled independently.
    let mut raw = [0u16; 16];
    for (i, r) in raw.iter_mut().enumerate() {
        *r = i as u16 * 130;
    }
    let scaled = rx.scale_1000_2000(&raw);
    for i in 0..16 {
        let expect = (1000 + (raw[i] as u32) * 1000 / 2047).min(2000) as u16;
        assert_eq!(scaled[i], expect);
        assert!((1000..=2000).contains(&scaled[i]));
    }
}

#[test]
fn scale_is_non_decreasing() {
    let rx = SbusReceiver::new();
    let mut prev = 0u16;
    for v in 0..=2100u16 {
        let s = rx.scale_1000_2000(&[v; 16])[0];
        assert!(s >= prev, "scale must be non-decreasing at raw value {v}");
        prev = s;
    }
}

#[test]
fn end_to_end_channel0_1023() {
    // Payload chosen so channel 0 decodes to 1023: 0x03FF big-endian.
    let mut payload = [0u8; 22];
    payload[0] = 0x03;
    payload[1] = 0xFF;
    let frame = build_frame(payload, 0x00);

    let mut rx = SbusReceiver::new();
    for (i, &b) in frame.iter().enumerate() {
        assert_eq!(rx.process_byte(b), i == 24);
    }
    let taken = rx.take_frame().expect("frame must be ready after 25 bytes");
    assert!(SbusReceiver::validate_checksum(&taken));

    let mut store = Channels::new();
    SbusReceiver::extract_channels(&taken, &mut store);
    assert_eq!(store.channel(0), Some(1023));

    let mut raw = [0u16; 16];
    raw[0] = 1023;
    let scaled = rx.scale_1000_2000(&raw);
    assert_eq!(scaled[0], 1499, "1023 scales to just under the midpoint");
}
