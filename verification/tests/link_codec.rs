//! Frames and messages of the link.

use axiomos::link::codec::{
    crc16, crc16_split, encode, Decoder, LinkError, Msg, MAX_FRAME, MAX_PAYLOAD, SYNC, T_MOTOR,
    VERSION,
};

fn drain(dec: &mut Decoder, bytes: &[u8]) -> Vec<Result<Msg, LinkError>> {
    let mut out = Vec::new();
    for &b in bytes {
        if let Some(r) = dec.push(b) {
            out.push(r);
        }
    }
    out
}

fn roundtrip(msg: Msg) {
    let mut buf = [0u8; MAX_FRAME];
    let n = encode(&msg, &mut buf).unwrap();
    let mut dec = Decoder::new();
    let got = drain(&mut dec, &buf[..n]);
    assert_eq!(got, vec![Ok(msg)], "roundtrip {:?}", msg);
}

#[test]
fn roundtrip_all_messages() {
    roundtrip(Msg::MotorSetpoint { seq: 7, left: -1000, right: 1000 });
    roundtrip(Msg::Estop { assert: true });
    roundtrip(Msg::Estop { assert: false });
    roundtrip(Msg::HeartbeatToShrike { seq: 0xBEEF });
    roundtrip(Msg::Sensor { ultrasonic_echo_us: 12345, estop_line: true, flags: 0xA5 });
    roundtrip(Msg::HeartbeatToPi { seq: 1 });
}

#[test]
fn in_payload_sync_byte_is_data() {
    // seq and both duty bytes carry 0x7E; must survive consume-by-count.
    let msg = Msg::MotorSetpoint { seq: 0x7E, left: 0x007E, right: 0x7E00u16 as i16 };
    let mut buf = [0u8; MAX_FRAME];
    let n = encode(&msg, &mut buf).unwrap();
    assert!(buf[..n].iter().filter(|&&b| b == 0x7E).count() >= 3);
    let mut dec = Decoder::new();
    assert_eq!(drain(&mut dec, &buf[..n]), vec![Ok(msg)]);
}

#[test]
fn crc_corruption_rejected() {
    let mut buf = [0u8; MAX_FRAME];
    let n = encode(&Msg::MotorSetpoint { seq: 1, left: 5, right: 6 }, &mut buf).unwrap();
    buf[5] ^= 0x01; // flip a payload bit
    let mut dec = Decoder::new();
    assert_eq!(drain(&mut dec, &buf[..n]), vec![Err(LinkError::BadCrc)]);
    // Decoder resynced: a fresh valid frame after the bad one decodes.
    let n2 = encode(&Msg::Estop { assert: true }, &mut buf).unwrap();
    assert_eq!(drain(&mut dec, &buf[..n2]), vec![Ok(Msg::Estop { assert: true })]);
}

#[test]
fn len_over_max_rejected() {
    let frame = [SYNC, VERSION, T_MOTOR, (MAX_PAYLOAD + 1) as u8, 0, 0];
    let mut dec = Decoder::new();
    assert_eq!(drain(&mut dec, &frame), vec![Err(LinkError::BadLen)]);
}

#[test]
fn len_mismatch_for_type_rejected() {
    // TYPE=motor but LEN=2 (motor needs 5). Build a CRC-valid frame by hand.
    let len = 2u8;
    let payload = [0u8, 0u8];
    let crc = crc16_split(&[VERSION, T_MOTOR, len], &payload);
    let frame = [
        SYNC, VERSION, T_MOTOR, len, payload[0], payload[1],
        (crc & 0xFF) as u8, (crc >> 8) as u8,
    ];
    let mut dec = Decoder::new();
    assert_eq!(drain(&mut dec, &frame), vec![Err(LinkError::BadLen)]);
}

#[test]
fn unknown_type_stays_aligned() {
    let ty = 0x40u8; // unknown, valid CRC/LEN
    let len = 1u8;
    let payload = [0x99u8];
    let crc = crc16_split(&[VERSION, ty, len], &payload);
    let frame = [SYNC, VERSION, ty, len, payload[0], (crc & 0xFF) as u8, (crc >> 8) as u8];
    let mut dec = Decoder::new();
    let mut buf = [0u8; MAX_FRAME];
    let n = encode(&Msg::HeartbeatToPi { seq: 9 }, &mut buf).unwrap();
    let mut stream = frame.to_vec();
    stream.extend_from_slice(&buf[..n]);
    assert_eq!(
        drain(&mut dec, &stream),
        vec![Err(LinkError::UnknownType), Ok(Msg::HeartbeatToPi { seq: 9 })]
    );
}

#[test]
fn bad_version_dropped_then_resync() {
    let mut dec = Decoder::new();
    assert_eq!(drain(&mut dec, &[SYNC, 0x02]), vec![Err(LinkError::BadVersion)]);
    let mut buf = [0u8; MAX_FRAME];
    let n = encode(&Msg::Estop { assert: false }, &mut buf).unwrap();
    assert_eq!(drain(&mut dec, &buf[..n]), vec![Ok(Msg::Estop { assert: false })]);
}

#[test]
fn resync_after_garbage_prefix() {
    let mut buf = [0u8; MAX_FRAME];
    let n = encode(&Msg::HeartbeatToShrike { seq: 42 }, &mut buf).unwrap();
    let mut stream = vec![0xAA, 0xBB, 0xCC, 0x00, 0xFF];
    stream.extend_from_slice(&buf[..n]);
    let mut dec = Decoder::new();
    let got = drain(&mut dec, &stream);
    assert_eq!(got.last(), Some(&Ok(Msg::HeartbeatToShrike { seq: 42 })));
}

#[test]
fn truncated_frame_yields_nothing() {
    let mut buf = [0u8; MAX_FRAME];
    let n = encode(&Msg::Sensor { ultrasonic_echo_us: 1, estop_line: false, flags: 0 }, &mut buf).unwrap();
    let mut dec = Decoder::new();
    assert!(drain(&mut dec, &buf[..n - 1]).is_empty());
    // Completing it then decodes.
    assert_eq!(dec.push(buf[n - 1]), Some(Ok(Msg::Sensor { ultrasonic_echo_us: 1, estop_line: false, flags: 0 })));
}

#[test]
fn buf_too_small() {
    let mut tiny = [0u8; 3];
    assert_eq!(encode(&Msg::Estop { assert: true }, &mut tiny), Err(LinkError::BufTooSmall));
}

#[test]
fn crc16_known_vector() {
    // CRC16-CCITT/FALSE("123456789") == 0x29B1.
    assert_eq!(crc16(b"123456789"), 0x29B1);
}

#[test]
fn crc16_split_matches_crc16() {
    // The decode-path CRC engine must equal the encode-path one for the
    // same logical bytes, or every frame would fail CRC across the wire.
    assert_eq!(crc16_split(b"1234", b"56789"), 0x29B1);
    assert_eq!(crc16_split(b"", b"123456789"), crc16(b"123456789"));
    assert_eq!(crc16_split(&[VERSION, T_MOTOR, 5], &[1, 2, 3, 4, 5]), {
        let mut v = vec![VERSION, T_MOTOR, 5];
        v.extend_from_slice(&[1, 2, 3, 4, 5]);
        crc16(&v)
    });
}

#[test]
fn max_payload_exact_frame_consumes_without_off_by_one() {
    // No defined Msg has a 16-byte payload, so use an unknown TYPE with
    // LEN == MAX_PAYLOAD: exercises the consume-by-count path at the buffer
    // boundary. Must yield UnknownType (CRC/LEN valid) and stay aligned.
    let ty = 0x40u8;
    let payload = [0x7Eu8; MAX_PAYLOAD]; // all-SYNC payload, worst case
    let crc = crc16_split(&[VERSION, ty, MAX_PAYLOAD as u8], &payload);
    let mut frame = vec![SYNC, VERSION, ty, MAX_PAYLOAD as u8];
    frame.extend_from_slice(&payload);
    frame.push((crc & 0xFF) as u8);
    frame.push((crc >> 8) as u8);
    let mut dec = Decoder::new();
    assert_eq!(drain(&mut dec, &frame), vec![Err(LinkError::UnknownType)]);
    // Still aligned: a normal frame after it decodes.
    let mut buf = [0u8; MAX_FRAME];
    let n = encode(&Msg::Estop { assert: true }, &mut buf).unwrap();
    assert_eq!(drain(&mut dec, &buf[..n]), vec![Ok(Msg::Estop { assert: true })]);
}

#[test]
fn decoder_reuse_across_back_to_back_frames() {
    let msgs = [
        Msg::MotorSetpoint { seq: 1, left: -10, right: 10 },
        Msg::HeartbeatToShrike { seq: 2 },
        Msg::Estop { assert: true },
        Msg::Sensor { ultrasonic_echo_us: 999, estop_line: false, flags: 3 },
    ];
    let mut stream = Vec::new();
    for m in &msgs {
        let mut buf = [0u8; MAX_FRAME];
        let n = encode(m, &mut buf).unwrap();
        stream.extend_from_slice(&buf[..n]);
    }
    let mut dec = Decoder::new();
    let got = drain(&mut dec, &stream);
    let want: Vec<Result<Msg, LinkError>> = msgs.iter().map(|m| Ok(*m)).collect();
    assert_eq!(got, want);
}
