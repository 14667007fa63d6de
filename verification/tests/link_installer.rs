//! The installer's wire format and endpoint.

use core::cell::Cell;

use axiomos::link::codec::crc16;
use axiomos::link::installer::{
    decode_candidate, Decoder, Endpoint, Frame, FrameKind, WireError, DATA_BYTES, MAGIC, MAX_MESSAGE_BYTES,
};

fn decode(bytes: &[u8]) -> Vec<Frame> {
    let mut decoder = Decoder::new();
    bytes
        .iter()
        .filter_map(|byte| decoder.push(*byte))
        .collect()
}

fn frame(kind: FrameKind, sequence: u32, payload: &[u8]) -> Frame {
    Frame::new(kind, sequence, payload).unwrap()
}

fn reset(endpoint: &mut Endpoint, sequence: u32) -> Frame {
    endpoint.exchange(frame(FrameKind::Reset, sequence, b"12345678"), |_, _| {
        panic!("reset must not dispatch")
    })
}

#[test]
fn canonical_wire_layout_roundtrips_magic_in_every_payload_position() {
    let original = frame(
        FrameKind::RequestLast,
        0x7856_3412,
        &[MAGIC, 1, MAGIC, 3, MAGIC, 5, MAGIC, 7],
    );
    let bytes = original.encode();

    assert_eq!(bytes[0], MAGIC);
    assert_eq!(bytes[1], 0x18);
    assert_eq!(&bytes[2..6], &[0x12, 0x34, 0x56, 0x78]);
    assert_eq!(&bytes[6..14], &original.data);
    assert_eq!(&bytes[14..16], &crc16(&bytes[..14]).to_le_bytes());
    assert_eq!(decode(&bytes), vec![original]);
}

#[test]
fn decoder_rejects_noncanonical_candidates_and_recovers_at_next_magic() {
    let good = frame(FrameKind::Poll, 9, &[]).encode();
    let mut unknown = good;
    unknown[1] = 0x40;
    let unknown_crc = crc16(&unknown[..14]).to_le_bytes();
    unknown[14..].copy_from_slice(&unknown_crc);
    let mut padded = good;
    padded[6] = 1;
    let padded_crc = crc16(&padded[..14]).to_le_bytes();
    padded[14..].copy_from_slice(&padded_crc);
    let mut corrupt = good;
    corrupt[14] ^= 1;

    let mut stream = Vec::new();
    stream.extend_from_slice(&unknown);
    stream.extend_from_slice(&padded);
    stream.extend_from_slice(&corrupt);
    stream.extend_from_slice(&good);
    assert_eq!(decode(&stream), vec![frame(FrameKind::Poll, 9, &[])]);
}

#[test]
fn sixteen_bytes_decode_only_if_they_are_wire_bytes() {
    let request = frame(FrameKind::Request, 7, b"abc");
    let good = request.encode();
    assert_eq!(decode_candidate(&good), Some(request));
    let resealed = |at: usize, value: u8| {
        let mut bytes = good;
        bytes[at] = value;
        let crc = crc16(&bytes[..14]).to_le_bytes();
        bytes[14..].copy_from_slice(&crc);
        bytes
    };
    assert_eq!(decode_candidate(&resealed(0, MAGIC ^ 1)), None);
    // A kind that there is not, lengths that do not fit, and filled-up data.
    assert_eq!(decode_candidate(&resealed(1, 0x43)), None);
    assert_eq!(decode_candidate(&resealed(1, 0x09)), None);
    assert_eq!(decode_candidate(&resealed(1, 0x23)), None);
    assert_eq!(decode_candidate(&resealed(13, 1)), None);
    let longer = decode_candidate(&resealed(1, 0x04)).unwrap();
    assert_eq!((longer.len, longer.sequence), (4, 7));
    let mut corrupt = good;
    corrupt[15] ^= 0x80;
    assert_eq!(decode_candidate(&corrupt), None);
}

#[test]
fn decoder_recovers_from_inserted_and_dropped_bytes() {
    let first = frame(FrameKind::Request, 1, b"ab").encode();
    let second = frame(FrameKind::RequestLast, 2, b"cd").encode();
    let third = frame(FrameKind::Poll, 3, &[]).encode();
    let mut stream = Vec::new();
    stream.extend_from_slice(&first[..7]);
    stream.extend_from_slice(&first[8..]);
    stream.extend_from_slice(&second[..5]);
    stream.push(0x55);
    stream.extend_from_slice(&second[5..]);
    stream.extend_from_slice(&third);

    assert_eq!(decode(&stream), vec![frame(FrameKind::Poll, 3, &[])]);
}

#[test]
fn frame_constructor_enforces_kind_lengths() {
    assert_eq!(
        Frame::new(FrameKind::Request, 0, &[0; DATA_BYTES + 1]),
        Err(WireError::BadLength)
    );
    assert_eq!(
        Frame::new(FrameKind::Poll, 0, &[1]),
        Err(WireError::BadLength)
    );
    assert_eq!(
        Frame::new(FrameKind::Reset, 0, &[0; 7]),
        Err(WireError::BadLength)
    );
    assert!(Frame::new(FrameKind::Reset, 0, &[0; 8]).is_ok());
}

#[test]
fn cold_endpoint_requires_reset_and_reset_echoes_challenge() {
    let mut endpoint = Endpoint::new();
    let rejected = endpoint.exchange(frame(FrameKind::RequestLast, 1, b"go"), |_, _| 0);
    assert_eq!(rejected.kind, FrameKind::Error);

    let ack = reset(&mut endpoint, 41);
    assert_eq!(ack, frame(FrameKind::Ack, 41, b"12345678"));
}

#[test]
fn fragments_dispatch_once_and_polls_drain_the_bounded_response() {
    let mut endpoint = Endpoint::new();
    reset(&mut endpoint, 10);
    assert_eq!(
        endpoint.exchange(frame(FrameKind::Request, 11, b"abcdefgh"), |_, _| 0),
        frame(FrameKind::Ack, 11, &[])
    );
    let calls = Cell::new(0);
    let final_request = frame(FrameKind::RequestLast, 12, b"ij");
    let ack = endpoint.exchange(final_request, |request, response| {
        calls.set(calls.get() + 1);
        assert_eq!(request, b"abcdefghij");
        response[..10].copy_from_slice(b"0123456789");
        10
    });
    assert_eq!(ack, frame(FrameKind::Ack, 12, &[]));
    assert_eq!(
        endpoint.exchange(final_request, |_, _| panic!("duplicate dispatched")),
        ack
    );
    assert_eq!(calls.get(), 1);
    assert_eq!(
        endpoint.exchange(frame(FrameKind::Poll, 13, &[]), |_, _| 0),
        frame(FrameKind::Response, 13, b"01234567")
    );
    assert_eq!(
        endpoint.exchange(frame(FrameKind::Poll, 14, &[]), |_, _| 0),
        frame(FrameKind::ResponseLast, 14, b"89")
    );
}

#[test]
fn retransmission_and_rejection_do_not_repeat_dispatch_or_lose_cache() {
    let mut endpoint = Endpoint::new();
    reset(&mut endpoint, 20);
    let calls = Cell::new(0);
    let request = frame(FrameKind::RequestLast, 21, b"x");
    endpoint.exchange(request, |_, response| {
        calls.set(calls.get() + 1);
        response[..1].copy_from_slice(b"y");
        1
    });

    let altered = frame(FrameKind::RequestLast, 21, b"z");
    assert_eq!(
        endpoint.exchange(altered, |_, _| panic!("altered duplicate dispatched")),
        frame(FrameKind::Error, 21, &[])
    );
    assert_eq!(
        endpoint.exchange(request, |_, _| panic!("exact duplicate dispatched")),
        frame(FrameKind::Ack, 21, &[])
    );
    let poll = frame(FrameKind::Poll, 22, &[]);
    let reply = endpoint.exchange(poll, |_, _| 0);
    assert_eq!(reply, frame(FrameKind::ResponseLast, 22, b"y"));
    assert_eq!(endpoint.exchange(poll, |_, _| 0), reply);
    assert_eq!(calls.get(), 1);
}

#[test]
fn unread_response_rejects_new_request_without_consuming_sequence() {
    let mut endpoint = Endpoint::new();
    reset(&mut endpoint, 30);
    endpoint.exchange(frame(FrameKind::RequestLast, 31, b"a"), |_, response| {
        response[0] = 7;
        1
    });
    assert_eq!(
        endpoint.exchange(frame(FrameKind::Request, 32, b"b"), |_, _| 0),
        frame(FrameKind::Error, 32, &[])
    );
    assert_eq!(
        endpoint.exchange(frame(FrameKind::Poll, 32, &[]), |_, _| 0),
        frame(FrameKind::ResponseLast, 32, &[7])
    );
}

#[test]
fn accumulator_overflow_is_transactional_and_retryable() {
    let mut endpoint = Endpoint::new();
    reset(&mut endpoint, 100);
    for sequence in 101..141 {
        assert_eq!(
            endpoint
                .exchange(frame(FrameKind::Request, sequence, &[1; 8]), |_, _| 0)
                .kind,
            FrameKind::Ack
        );
    }
    assert_eq!(
        endpoint
            .exchange(frame(FrameKind::RequestLast, 141, &[2]), |_, _| 0)
            .kind,
        FrameKind::Error
    );
    let mut seen = 0;
    assert_eq!(
        endpoint.exchange(frame(FrameKind::RequestLast, 141, &[]), |request, _| {
            seen = request.len();
            0
        }),
        frame(FrameKind::Ack, 141, &[])
    );
    assert_eq!(seen, MAX_MESSAGE_BYTES);
}

#[test]
fn sequence_exhaustion_requires_a_fresh_nonoverflowing_reset() {
    let mut endpoint = Endpoint::new();
    assert_eq!(reset(&mut endpoint, u32::MAX - 1).kind, FrameKind::Ack);
    assert_eq!(
        endpoint
            .exchange(frame(FrameKind::RequestLast, u32::MAX, &[]), |_, _| 0)
            .kind,
        FrameKind::Error
    );
    assert_eq!(reset(&mut endpoint, u32::MAX).kind, FrameKind::Error);
    assert_eq!(reset(&mut endpoint, 5).kind, FrameKind::Ack);
}

#[test]
fn altered_reset_duplicate_preserves_the_exact_cached_ack() {
    let mut endpoint = Endpoint::new();
    let original = frame(FrameKind::Reset, 9, b"12345678");
    let ack = endpoint.exchange(original, |_, _| 0);
    assert_eq!(
        endpoint.exchange(frame(FrameKind::Reset, 9, b"abcdefgh"), |_, _| 0),
        frame(FrameKind::Error, 9, &[])
    );
    assert_eq!(endpoint.exchange(original, |_, _| 0), ack);
}

#[test]
fn first_dispatch_gets_zeros_and_later_ones_what_was_left() {
    let mut endpoint = Endpoint::new();
    reset(&mut endpoint, 1);
    endpoint.exchange(frame(FrameKind::RequestLast, 2, b"a"), |_, response| {
        assert!(response.iter().all(|&byte| byte == 0));
        response[..3].copy_from_slice(b"xyz");
        1
    });
    let poll = frame(FrameKind::Poll, 3, &[]);
    let reply = endpoint.exchange(poll, |_, _| panic!("dispatched"));
    assert_eq!(reply, frame(FrameKind::ResponseLast, 3, b"x"));
    // Neither a repetition nor a refusal nor a reset touches the buffer.
    assert_eq!(endpoint.exchange(poll, |_, _| panic!("dispatched")), reply);
    endpoint.exchange(frame(FrameKind::Poll, 9, &[]), |_, _| panic!("dispatched"));
    reset(&mut endpoint, 20);
    endpoint.exchange(frame(FrameKind::RequestLast, 21, b"b"), |_, response| {
        assert_eq!(&response[..4], b"xyz\0");
        0
    });
}

#[test]
fn message_of_many_parts_is_dispatched_once() {
    let mut endpoint = Endpoint::new();
    reset(&mut endpoint, 100);
    let message: Vec<u8> = (0..=255).chain(0..64).collect();
    let parts: Vec<&[u8]> = message.chunks(8).collect();
    let calls = Cell::new(0);
    for (i, part) in parts.iter().enumerate() {
        let last = i == parts.len() - 1;
        let kind = if last { FrameKind::RequestLast } else { FrameKind::Request };
        let sequence = 101 + i as u32;
        let reply = endpoint.exchange(frame(kind, sequence, part), |request, _| {
            calls.set(calls.get() + 1);
            assert!(last);
            assert_eq!(request, &message[..]);
            0
        });
        assert_eq!(reply, frame(FrameKind::Ack, sequence, &[]));
    }
    assert_eq!(calls.get(), 1);
}

#[test]
fn reports_are_the_last_bytes_and_do_not_overlap() {
    let first = frame(FrameKind::Request, 1, &[0xA5; 8]);
    let second = frame(FrameKind::Poll, 2, &[]);
    let mut stream = vec![0xA5, 0x00, 0xA5];
    stream.extend(first.encode());
    stream.extend([0xA5, 0xA5]);
    stream.extend(second.encode());
    let mut decoder = Decoder::new();
    let mut found = Vec::new();
    for (n, &byte) in stream.iter().enumerate() {
        if let Some(reported) = decoder.push(byte) {
            assert_eq!(reported.encode(), stream[n + 1 - 16..n + 1]);
            found.push((n, reported));
        }
    }
    assert_eq!(found.len(), 2);
    assert_eq!((found[0].1, found[1].1), (first, second));
    assert!(found[1].0 - found[0].0 >= 16);
}
