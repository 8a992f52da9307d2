use sbus_core::SbusReceiver;

fn checksum(region: &[u8]) -> u8 {
    region.iter().fold(0, |a, &b| a ^ b)
}

fn build_frame(payload: [u8; 22], trailer: u8) -> [u8; 25] {
    let mut f = [0u8; 25];
    f[0] = 0x0F;
    f[1..23].copy_from_slice(&payload);
    f[23] = checksum(&f[0..23]);
    f[24] = trailer;
    f
}

#[test]
fn alignment_gate_discards_until_start_marker() {
    let mut rx = SbusReceiver::new();
    for b in [0x00u8, 0x55, 0xFF, 0x10, 0x0E, 0xF0, 0x01] {
        assert!(!rx.process_byte(b));
    }
    assert_eq!(rx.take_frame(), None);
    // A start marker delivered while the buffer is empty begins accumulation.
    let frame = build_frame([7u8; 22], 0x00);
    for (i, &b) in frame.iter().enumerate() {
        let ready = rx.process_byte(b);
        assert_eq!(ready, i == 24);
    }
    assert_eq!(rx.take_frame(), Some(frame));
}

#[test]
fn ready_exactly_once_on_25th_byte_and_exact_frame() {
    let mut payload = [0u8; 22];
    for (i, p) in payload.iter_mut().enumerate() {
        *p = (i as u8) * 3 + 1;
    }
    let frame = build_frame(payload, 0xAB);
    let mut rx = SbusReceiver::new();
    let mut ready_count = 0;
    for (i, &b) in frame.iter().enumerate() {
        let ready = rx.process_byte(b);
        if ready {
            ready_count += 1;
        }
        assert_eq!(ready, i == 24, "ready must fire exactly on the 25th byte");
    }
    assert_eq!(ready_count, 1);
    let taken = rx.take_frame().expect("a full frame must be available");
    assert_eq!(taken, frame);
    // The queue was drained: no second frame before new bytes arrive.
    assert_eq!(rx.take_frame(), None);
}

#[test]
fn sliding_window_keeps_most_recent_25_bytes() {
    // 30 bytes, starting with the marker so accumulation begins at once.
    let mut stream = [0u8; 30];
    stream[0] = 0x0F;
    for i in 1..30 {
        stream[i] = 100 + i as u8;
    }
    let mut rx = SbusReceiver::new();
    for (i, &b) in stream.iter().enumerate() {
        let ready = rx.process_byte(b);
        // Once full, the buffer stays full: eviction, not rejection.
        assert_eq!(ready, i >= 24);
    }
    let taken = rx.take_frame().expect("the window still holds 25 bytes");
    assert_eq!(&taken[..], &stream[5..30], "buffer must hold the 25 most recent bytes");
}

#[test]
fn take_frame_absent_while_fewer_than_25_bytes() {
    let mut rx = SbusReceiver::new();
    assert_eq!(rx.take_frame(), None);
    assert!(!rx.process_byte(0x0F));
    for b in 1..24u8 {
        assert!(!rx.process_byte(b));
    }
    // 24 bytes buffered: still absent.
    assert_eq!(rx.take_frame(), None);
}
