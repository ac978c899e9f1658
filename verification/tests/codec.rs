use scanframe::checksum::checksum;
use scanframe::frame::{compose, parse, remaining_after_length, FrameError};

#[test]
fn checksum_of_empty_input_is_zero() {
    assert_eq!(checksum(&[]), 0);
}

#[test]
fn checksum_known_value() {
    // 0x04 + 0xc5 + 0x04 + 0x00 = 0xcd; two's-complement negation is 0xff33.
    assert_eq!(checksum(&[0x04, 0xc5, 0x04, 0x00]), 0xff33);
}

#[test]
fn checksum_wraps_the_sum() {
    // 256 bytes of 0xff sum to 0xff00; negated: 0x0100.
    let data = [0xffu8; 256];
    assert_eq!(checksum(&data), 0x0100);
}

#[test]
fn checksum_is_additive_inverse_of_byte_sum() {
    for data in [
        vec![],
        vec![0x01],
        vec![0x04, 0xc5, 0x04, 0x00],
        vec![0xff; 300],
        (0u16..=255).map(|b| b as u8).collect::<Vec<u8>>(),
    ] {
        let sum: u32 = data.iter().map(|b| *b as u32).sum();
        let cs = checksum(&data) as u32;
        assert_eq!((sum + cs) % 0x10000, 0);
    }
}

#[test]
fn compose_aim_on_payload_yields_exact_wire_bytes() {
    // Length byte 0x04 covers itself plus the three payload bytes; the sum
    // 0x04 + 0xc5 + 0x04 + 0x00 = 0xcd negates to 0xff33, stored big-endian.
    let wire = compose(&[0xc5, 0x04, 0x00]).unwrap();
    assert_eq!(wire, vec![0x04, 0xc5, 0x04, 0x00, 0xff, 0x33]);
}

#[test]
fn compose_empty_payload() {
    // Length byte 0x01 covers only itself; checksum of [0x01] is 0xffff.
    let wire = compose(&[]).unwrap();
    assert_eq!(wire, vec![0x01, 0xff, 0xff]);
}

#[test]
fn round_trip_returns_the_composed_payload() {
    for payload in [vec![0xc5, 0x04, 0x00], vec![0xd3, 0x04, 0x00, 0x10, 0x20], vec![0x7f]] {
        let wire = compose(&payload).unwrap();
        let frame = parse(&wire).unwrap();
        assert_eq!(frame.length as usize, payload.len() + 1);
        assert_eq!(frame.payload, payload);
        assert_eq!(frame.checksum, checksum(&wire[..wire.len() - 2]));
    }
}

#[test]
fn parse_ignores_bytes_past_the_frame() {
    let mut wire = compose(&[0xc5, 0x04, 0x00]).unwrap();
    let frame_alone = parse(&wire).unwrap();
    wire.push(0xaa);
    wire.push(0xbb);
    let frame = parse(&wire).unwrap();
    assert_eq!(frame, frame_alone);
}

#[test]
fn tampering_any_non_length_byte_is_caught() {
    let wire = compose(&[0xc5, 0x04, 0x00]).unwrap();
    for i in 1..wire.len() {
        let mut tampered = wire.clone();
        tampered[i] = tampered[i].wrapping_add(1);
        match parse(&tampered) {
            Err(FrameError::ChecksumMismatch { .. }) => {}
            other => panic!("tampering byte {} gave {:?}", i, other),
        }
    }
}

#[test]
fn checksum_mismatch_reports_expected_and_actual() {
    // Corrupt the low checksum byte of the AIM_ON frame.
    let result = parse(&[0x04, 0xc5, 0x04, 0x00, 0xff, 0x32]);
    assert_eq!(
        result.unwrap_err(),
        FrameError::ChecksumMismatch { expected: 0xff33, actual: 0xff32 }
    );
}

#[test]
fn zero_length_byte_is_malformed() {
    assert_eq!(parse(&[0x00]).unwrap_err(), FrameError::MalformedFrame);
    assert_eq!(parse(&[0x00, 0x01, 0x02, 0x03]).unwrap_err(), FrameError::MalformedFrame);
}

#[test]
fn stream_closed_after_length_byte_is_a_transport_error() {
    assert_eq!(parse(&[0x04]).unwrap_err(), FrameError::TransportError);
}

#[test]
fn empty_delivery_is_a_transport_error() {
    assert_eq!(parse(&[]).unwrap_err(), FrameError::TransportError);
}

#[test]
fn truncated_frame_is_a_transport_error() {
    // A length byte of 0x04 needs five more bytes; only four arrive.
    assert_eq!(parse(&[0x04, 0xc5, 0x04, 0x00, 0xff]).unwrap_err(), FrameError::TransportError);
}

#[test]
fn compose_accepts_the_largest_payload() {
    // 254 payload bytes: the length byte holds 254 + 1 = 255.
    let payload = [0u8; 254];
    let wire = compose(&payload).unwrap();
    assert_eq!(wire.len(), 257);
    assert_eq!(wire[0], 255);
}

#[test]
fn compose_rejects_an_oversized_payload() {
    // 255 payload bytes would need a length byte of 256.
    let payload = [0u8; 255];
    assert_eq!(compose(&payload).unwrap_err(), FrameError::FrameTooLarge);
}

#[test]
fn remaining_after_length_counts_payload_and_checksum() {
    // A length byte of 0x04 already covered itself: three payload bytes
    // remain, plus the two checksum bytes.
    assert_eq!(remaining_after_length(0x04).unwrap(), 5);
    assert_eq!(remaining_after_length(0x01).unwrap(), 2);
    assert_eq!(remaining_after_length(0xff).unwrap(), 256);
}

#[test]
fn remaining_after_length_rejects_zero() {
    assert_eq!(remaining_after_length(0x00).unwrap_err(), FrameError::MalformedFrame);
}
