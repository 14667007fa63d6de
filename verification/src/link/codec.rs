//! Frame codec of the control link.
//!
//! A frame is `SYNC VERSION TYPE LEN PAYLOAD[LEN] CRC_LO CRC_HI`, with the
//! CRC16-CCITT/FALSE of `VERSION TYPE LEN PAYLOAD`. The decoder is fed one byte
//! at a time. It looks for `SYNC` only between frames: once `LEN` is accepted,
//! payload and CRC are consumed by count, so a `SYNC` byte inside a payload is
//! data.
//!
//! The codec does not clamp motor duty.

use vstd::prelude::*;

use crate::bytes::{
    get_le, i16_of_u16, i16_to_u16, le_bytes, le_value, lemma_byte_spans, lemma_i16_roundtrip,
    lemma_le_bytes_len, lemma_le_roundtrip, lemma_le_value_bound, put_le, u16_of_i16, u16_to_i16,
};

verus! {

pub const SYNC: u8 = 0x7E;

pub const VERSION: u8 = 0x01;

/// Largest payload; bounds the decoder's buffer and the `LEN` byte.
pub const MAX_PAYLOAD: usize = 16;

/// Largest frame: four header bytes, payload and CRC.
pub const MAX_FRAME: usize = 22;

// The high bit of a type tells the direction: clear towards the controller,
// set towards the kernel. The types of the handoff messages, 0x04 to 0x06 and
// 0x83 to 0x85, are assigned here, and so are their payload layouts: they
// continue the numbering of the five other types.
pub const T_MOTOR: u8 = 0x01;

pub const T_ESTOP: u8 = 0x02;

pub const T_HB_TO_SHRIKE: u8 = 0x03;

/// The type of a safe barrier, chosen by this codec.
pub const T_SAFE_BARRIER: u8 = 0x04;

/// The type of an offer, chosen by this codec.
pub const T_SESSION_OFFER: u8 = 0x05;

/// The type of a requalification, chosen by this codec.
pub const T_REQUALIFY: u8 = 0x06;

pub const T_SENSOR: u8 = 0x81;

pub const T_HB_TO_PI: u8 = 0x82;

/// The type of a safe acknowledgement, chosen by this codec.
pub const T_SAFE_ACK: u8 = 0x83;

/// The type of a ready session, chosen by this codec.
pub const T_SESSION_READY: u8 = 0x84;

/// The type of a prepared controller, chosen by this codec.
pub const T_PREPARED: u8 = 0x85;

/// A control-link message.
#[allow(inconsistent_fields)]
#[derive(Debug, Clone, Copy, PartialEq, Eq, Structural)]
pub enum Msg {
    /// To the controller: signed per-mille duty of both wheels. `seq` is a
    /// monotonic anti-replay counter.
    MotorSetpoint { seq: u8, left: i16, right: i16 },
    /// To the controller: soft emergency stop, asserted or released.
    Estop { assert: bool },
    /// To the controller: liveness.
    HeartbeatToShrike { seq: u16 },
    /// To the controller: enter the safe barrier with this identity.
    SafeBarrier { session: u32, correlation: u64, sequence: u8 },
    /// To the controller: offer a new session.
    SessionOffer { session: u32 },
    /// To the controller: requalify under a new session.
    Requalify { session: u32 },
    /// To the kernel: sensor reading.
    Sensor { ultrasonic_echo_us: u16, estop_line: bool, flags: u8 },
    /// To the kernel: liveness.
    HeartbeatToPi { seq: u16 },
    /// To the kernel: the barrier with this identity is in force.
    SafeAck { session: u32, correlation: u64, sequence: u8 },
    /// To the kernel: the offered session is accepted.
    SessionReady { session: u32 },
    /// To the kernel: requalification is prepared.
    Prepared { session: u32 },
}

#[derive(Debug, Clone, Copy, PartialEq, Eq, Structural)]
pub enum LinkError {
    /// The caller's buffer cannot hold the frame.
    BufTooSmall,
    /// `LEN` exceeds `MAX_PAYLOAD`, or is not the length of the type.
    BadLen,
    /// CRC mismatch; the frame is dropped.
    BadCrc,
    /// The version byte is not `VERSION`.
    BadVersion,
    /// CRC and `LEN` are fine but the type is unknown.
    UnknownType,
}

// ---------------------------------------------------------------------------
// CRC
// ---------------------------------------------------------------------------

/// One shift of the CRC register with polynomial `0x1021`.
pub open spec fn crc_shift(crc: u16) -> u16 {
    if crc & 0x8000 != 0 {
        (crc << 1) ^ 0x1021
    } else {
        crc << 1
    }
}

/// `count` shifts of the register.
pub open spec fn crc_shifts(crc: u16, count: nat) -> u16
    decreases count,
{
    if count == 0 {
        crc
    } else {
        crc_shift(crc_shifts(crc, (count - 1) as nat))
    }
}

/// The register after `byte` has entered at the high end.
pub open spec fn crc_step(crc: u16, byte: u8) -> u16 {
    crc_shifts(crc ^ ((byte as u16) << 8), 8)
}

/// The register after all of `data`, starting from `crc`.
pub open spec fn crc_over(crc: u16, data: Seq<u8>) -> u16
    decreases data.len(),
{
    if data.len() == 0 {
        crc
    } else {
        crc_step(crc_over(crc, data.drop_last()), data.last())
    }
}

/// CRC16-CCITT/FALSE: polynomial `0x1021`, initial value `0xFFFF`, not
/// reflected, no final xor.
pub open spec fn crc16_of(data: Seq<u8>) -> u16 {
    crc_over(0xFFFF, data)
}

/// The CRC of a concatenation continues from the CRC of the first part.
pub proof fn lemma_crc_over_concat(crc: u16, head: Seq<u8>, tail: Seq<u8>)
    ensures
        crc_over(crc, head + tail) == crc_over(crc_over(crc, head), tail),
    decreases tail.len(),
{
    if tail.len() == 0 {
        assert(head + tail =~= head);
    } else {
        assert((head + tail).drop_last() =~= head + tail.drop_last());
        lemma_crc_over_concat(crc, head, tail.drop_last());
    }
}

fn crc_push(crc: u16, byte: u8) -> (next: u16)
    ensures
        next == crc_step(crc, byte),
{
    let start: u16 = crc ^ ((byte as u16) << 8);
    let mut value: u16 = start;
    let mut i: u8 = 0;
    while i < 8
        invariant
            i <= 8,
            value == crc_shifts(start, i as nat),
        decreases 8 - i,
    {
        value = if value & 0x8000 != 0 {
            (value << 1) ^ 0x1021
        } else {
            value << 1
        };
        i = i + 1;
    }
    value
}

fn crc_run(crc: u16, data: &[u8]) -> (result: u16)
    ensures
        result == crc_over(crc, data@),
{
    let mut value: u16 = crc;
    let mut i: usize = 0;
    while i < data.len()
        invariant
            i <= data@.len(),
            value == crc_over(crc, data@.subrange(0, i as int)),
        decreases data@.len() - i,
    {
        proof {
            let next = data@.subrange(0, i + 1);
            assert(next.drop_last() =~= data@.subrange(0, i as int));
            assert(next.last() == data@[i as int]);
        }
        value = crc_push(value, data[i]);
        i = i + 1;
    }
    proof {
        assert(data@.subrange(0, data@.len() as int) =~= data@);
    }
    value
}

/// CRC16-CCITT/FALSE of `data`.
pub fn crc16(data: &[u8]) -> (crc: u16)
    ensures
        crc == crc16_of(data@),
{
    crc_run(0xFFFF, data)
}

/// CRC of `head` followed by `tail`, without joining them.
pub fn crc16_split(head: &[u8], tail: &[u8]) -> (crc: u16)
    ensures
        crc == crc16_of(head@ + tail@),
{
    proof {
        lemma_crc_over_concat(0xFFFF, head@, tail@);
    }
    crc_run(crc_run(0xFFFF, head), tail)
}

// ---------------------------------------------------------------------------
// Messages and frames
// ---------------------------------------------------------------------------

pub open spec fn flag_byte(flag: bool) -> u8 {
    if flag {
        1
    } else {
        0
    }
}

/// The type byte of a message.
pub open spec fn type_of(msg: Msg) -> u8 {
    match msg {
        Msg::MotorSetpoint { .. } => T_MOTOR,
        Msg::Estop { .. } => T_ESTOP,
        Msg::HeartbeatToShrike { .. } => T_HB_TO_SHRIKE,
        Msg::SafeBarrier { .. } => T_SAFE_BARRIER,
        Msg::SessionOffer { .. } => T_SESSION_OFFER,
        Msg::Requalify { .. } => T_REQUALIFY,
        Msg::Sensor { .. } => T_SENSOR,
        Msg::HeartbeatToPi { .. } => T_HB_TO_PI,
        Msg::SafeAck { .. } => T_SAFE_ACK,
        Msg::SessionReady { .. } => T_SESSION_READY,
        Msg::Prepared { .. } => T_PREPARED,
    }
}

/// The payload of a message: its fields in order, multi-byte ones
/// little-endian.
pub open spec fn payload_of(msg: Msg) -> Seq<u8> {
    match msg {
        Msg::MotorSetpoint { seq, left, right } => seq![seq] + le_bytes(
            u16_of_i16(left) as nat,
            2,
        ) + le_bytes(u16_of_i16(right) as nat, 2),
        Msg::Estop { assert: asserted } => seq![flag_byte(asserted)],
        Msg::HeartbeatToShrike { seq } => le_bytes(seq as nat, 2),
        Msg::SafeBarrier { session, correlation, sequence } => le_bytes(session as nat, 4)
            + le_bytes(correlation as nat, 8) + seq![sequence],
        Msg::SessionOffer { session } => le_bytes(session as nat, 4),
        Msg::Requalify { session } => le_bytes(session as nat, 4),
        Msg::Sensor { ultrasonic_echo_us, estop_line, flags } => le_bytes(
            ultrasonic_echo_us as nat,
            2,
        ) + seq![flag_byte(estop_line), flags],
        Msg::HeartbeatToPi { seq } => le_bytes(seq as nat, 2),
        Msg::SafeAck { session, correlation, sequence } => le_bytes(session as nat, 4) + le_bytes(
            correlation as nat,
            8,
        ) + seq![sequence],
        Msg::SessionReady { session } => le_bytes(session as nat, 4),
        Msg::Prepared { session } => le_bytes(session as nat, 4),
    }
}

/// The one payload length that a type admits; `None` for an unknown type.
pub open spec fn payload_len(ty: u8) -> Option<nat> {
    if ty == T_MOTOR {
        Some(5)
    } else if ty == T_ESTOP {
        Some(1)
    } else if ty == T_HB_TO_SHRIKE || ty == T_HB_TO_PI {
        Some(2)
    } else if ty == T_SENSOR || ty == T_SESSION_OFFER || ty == T_REQUALIFY || ty == T_SESSION_READY
        || ty == T_PREPARED {
        Some(4)
    } else if ty == T_SAFE_BARRIER || ty == T_SAFE_ACK {
        Some(13)
    } else {
        None
    }
}

/// What follows `SYNC` and is covered by the CRC.
pub open spec fn covered(ty: u8, payload: Seq<u8>) -> Seq<u8> {
    seq![VERSION, ty, payload.len() as u8] + payload
}

/// The whole frame with type `ty` and payload `payload`.
pub open spec fn frame_of(ty: u8, payload: Seq<u8>) -> Seq<u8> {
    seq![SYNC] + covered(ty, payload) + le_bytes(crc16_of(covered(ty, payload)) as nat, 2)
}

/// The bytes on the wire for a message.
pub open spec fn wire(msg: Msg) -> Seq<u8> {
    frame_of(type_of(msg), payload_of(msg))
}

/// What a payload means under a type.
pub open spec fn message_of(ty: u8, payload: Seq<u8>) -> Result<Msg, LinkError> {
    match payload_len(ty) {
        None => Err(LinkError::UnknownType),
        Some(need) => if payload.len() != need {
            Err(LinkError::BadLen)
        } else if ty == T_MOTOR {
            Ok(
                Msg::MotorSetpoint {
                    seq: payload[0],
                    left: i16_of_u16(le_value(payload.subrange(1, 3)) as u16),
                    right: i16_of_u16(le_value(payload.subrange(3, 5)) as u16),
                },
            )
        } else if ty == T_ESTOP {
            Ok(Msg::Estop { assert: payload[0] != 0 })
        } else if ty == T_HB_TO_SHRIKE {
            Ok(Msg::HeartbeatToShrike { seq: le_value(payload) as u16 })
        } else if ty == T_HB_TO_PI {
            Ok(Msg::HeartbeatToPi { seq: le_value(payload) as u16 })
        } else if ty == T_SENSOR {
            Ok(
                Msg::Sensor {
                    ultrasonic_echo_us: le_value(payload.subrange(0, 2)) as u16,
                    estop_line: payload[2] != 0,
                    flags: payload[3],
                },
            )
        } else if ty == T_SESSION_OFFER {
            Ok(Msg::SessionOffer { session: le_value(payload) as u32 })
        } else if ty == T_REQUALIFY {
            Ok(Msg::Requalify { session: le_value(payload) as u32 })
        } else if ty == T_SESSION_READY {
            Ok(Msg::SessionReady { session: le_value(payload) as u32 })
        } else if ty == T_PREPARED {
            Ok(Msg::Prepared { session: le_value(payload) as u32 })
        } else if ty == T_SAFE_BARRIER {
            Ok(
                Msg::SafeBarrier {
                    session: le_value(payload.subrange(0, 4)) as u32,
                    correlation: le_value(payload.subrange(4, 12)) as u64,
                    sequence: payload[12],
                },
            )
        } else {
            Ok(
                Msg::SafeAck {
                    session: le_value(payload.subrange(0, 4)) as u32,
                    correlation: le_value(payload.subrange(4, 12)) as u64,
                    sequence: payload[12],
                },
            )
        },
    }
}

/// Every message has the payload length of its type, and that fits a frame.
pub proof fn lemma_payload_len(msg: Msg)
    ensures
        payload_len(type_of(msg)) == Some(payload_of(msg).len()),
        payload_of(msg).len() <= 13,
        wire(msg).len() == payload_of(msg).len() + 6,
        wire(msg).len() <= MAX_FRAME,
{
    match msg {
        Msg::MotorSetpoint { seq, left, right } => {
            lemma_le_bytes_len(u16_of_i16(left) as nat, 2);
            lemma_le_bytes_len(u16_of_i16(right) as nat, 2);
        },
        Msg::Estop { .. } => {},
        Msg::HeartbeatToShrike { seq } => {
            lemma_le_bytes_len(seq as nat, 2);
        },
        Msg::SafeBarrier { session, correlation, sequence } => {
            lemma_le_bytes_len(session as nat, 4);
            lemma_le_bytes_len(correlation as nat, 8);
        },
        Msg::SessionOffer { session } => {
            lemma_le_bytes_len(session as nat, 4);
        },
        Msg::Requalify { session } => {
            lemma_le_bytes_len(session as nat, 4);
        },
        Msg::Sensor { ultrasonic_echo_us, estop_line, flags } => {
            lemma_le_bytes_len(ultrasonic_echo_us as nat, 2);
        },
        Msg::HeartbeatToPi { seq } => {
            lemma_le_bytes_len(seq as nat, 2);
        },
        Msg::SafeAck { session, correlation, sequence } => {
            lemma_le_bytes_len(session as nat, 4);
            lemma_le_bytes_len(correlation as nat, 8);
        },
        Msg::SessionReady { session } => {
            lemma_le_bytes_len(session as nat, 4);
        },
        Msg::Prepared { session } => {
            lemma_le_bytes_len(session as nat, 4);
        },
    }
    lemma_le_bytes_len(
        crc16_of(covered(type_of(msg), payload_of(msg))) as nat,
        2,
    );
}

/// Law: reading the payload of a message under its type gives the message.
pub proof fn law_payload_roundtrip(msg: Msg)
    ensures
        message_of(type_of(msg), payload_of(msg)) == Ok::<Msg, LinkError>(msg),
{
    lemma_payload_len(msg);
    lemma_byte_spans();
    let p = payload_of(msg);
    match msg {
        Msg::MotorSetpoint { seq, left, right } => {
            lemma_le_roundtrip(u16_of_i16(left) as nat, 2);
            lemma_le_roundtrip(u16_of_i16(right) as nat, 2);
            lemma_i16_roundtrip(left);
            lemma_i16_roundtrip(right);
            assert(p.subrange(1, 3) =~= le_bytes(u16_of_i16(left) as nat, 2));
            assert(p.subrange(3, 5) =~= le_bytes(u16_of_i16(right) as nat, 2));
        },
        Msg::Estop { .. } => {},
        Msg::HeartbeatToShrike { seq } => {
            lemma_le_roundtrip(seq as nat, 2);
        },
        Msg::SafeBarrier { session, correlation, sequence } => {
            lemma_le_roundtrip(session as nat, 4);
            lemma_le_roundtrip(correlation as nat, 8);
            assert(p.subrange(0, 4) =~= le_bytes(session as nat, 4));
            assert(p.subrange(4, 12) =~= le_bytes(correlation as nat, 8));
        },
        Msg::SessionOffer { session } => {
            lemma_le_roundtrip(session as nat, 4);
        },
        Msg::Requalify { session } => {
            lemma_le_roundtrip(session as nat, 4);
        },
        Msg::Sensor { ultrasonic_echo_us, estop_line, flags } => {
            lemma_le_roundtrip(ultrasonic_echo_us as nat, 2);
            assert(p.subrange(0, 2) =~= le_bytes(ultrasonic_echo_us as nat, 2));
        },
        Msg::HeartbeatToPi { seq } => {
            lemma_le_roundtrip(seq as nat, 2);
        },
        Msg::SafeAck { session, correlation, sequence } => {
            lemma_le_roundtrip(session as nat, 4);
            lemma_le_roundtrip(correlation as nat, 8);
            assert(p.subrange(0, 4) =~= le_bytes(session as nat, 4));
            assert(p.subrange(4, 12) =~= le_bytes(correlation as nat, 8));
        },
        Msg::SessionReady { session } => {
            lemma_le_roundtrip(session as nat, 4);
        },
        Msg::Prepared { session } => {
            lemma_le_roundtrip(session as nat, 4);
        },
    }
}

/// Type byte, payload length and zero-padded payload of a message.
fn payload_bytes(msg: &Msg) -> (result: (u8, usize, [u8; MAX_PAYLOAD]))
    ensures
        result.0 == type_of(*msg),
        result.1 == payload_of(*msg).len(),
        result.1 <= 13,
        result.2@.subrange(0, result.1 as int) == payload_of(*msg),
{
    let mut payload = [0u8; MAX_PAYLOAD];
    proof {
        lemma_payload_len(*msg);
    }
    match *msg {
        Msg::MotorSetpoint { seq, left, right } => {
            proof {
                lemma_le_bytes_len(u16_of_i16(left) as nat, 2);
                lemma_le_bytes_len(u16_of_i16(right) as nat, 2);
            }
            payload[0] = seq;
            put_le(&mut payload, 1, i16_to_u16(left) as u64, 2);
            put_le(&mut payload, 3, i16_to_u16(right) as u64, 2);
            assert(payload@.subrange(0, 5) =~= payload_of(*msg));
            (T_MOTOR, 5, payload)
        },
        Msg::Estop { assert: asserted } => {
            payload[0] = if asserted { 1 } else { 0 };
            assert(payload@.subrange(0, 1) =~= payload_of(*msg));
            (T_ESTOP, 1, payload)
        },
        Msg::HeartbeatToShrike { seq } => {
            put_le(&mut payload, 0, seq as u64, 2);
            assert(payload@.subrange(0, 2) =~= payload_of(*msg));
            (T_HB_TO_SHRIKE, 2, payload)
        },
        Msg::SafeBarrier { session, correlation, sequence } => {
            proof {
                lemma_le_bytes_len(session as nat, 4);
                lemma_le_bytes_len(correlation as nat, 8);
            }
            put_le(&mut payload, 0, session as u64, 4);
            put_le(&mut payload, 4, correlation, 8);
            payload[12] = sequence;
            assert(payload@.subrange(0, 13) =~= payload_of(*msg));
            (T_SAFE_BARRIER, 13, payload)
        },
        Msg::SessionOffer { session } => {
            put_le(&mut payload, 0, session as u64, 4);
            assert(payload@.subrange(0, 4) =~= payload_of(*msg));
            (T_SESSION_OFFER, 4, payload)
        },
        Msg::Requalify { session } => {
            put_le(&mut payload, 0, session as u64, 4);
            assert(payload@.subrange(0, 4) =~= payload_of(*msg));
            (T_REQUALIFY, 4, payload)
        },
        Msg::Sensor { ultrasonic_echo_us, estop_line, flags } => {
            proof {
                lemma_le_bytes_len(ultrasonic_echo_us as nat, 2);
            }
            put_le(&mut payload, 0, ultrasonic_echo_us as u64, 2);
            payload[2] = if estop_line { 1 } else { 0 };
            payload[3] = flags;
            assert(payload@.subrange(0, 4) =~= payload_of(*msg));
            (T_SENSOR, 4, payload)
        },
        Msg::HeartbeatToPi { seq } => {
            put_le(&mut payload, 0, seq as u64, 2);
            assert(payload@.subrange(0, 2) =~= payload_of(*msg));
            (T_HB_TO_PI, 2, payload)
        },
        Msg::SafeAck { session, correlation, sequence } => {
            proof {
                lemma_le_bytes_len(session as nat, 4);
                lemma_le_bytes_len(correlation as nat, 8);
            }
            put_le(&mut payload, 0, session as u64, 4);
            put_le(&mut payload, 4, correlation, 8);
            payload[12] = sequence;
            assert(payload@.subrange(0, 13) =~= payload_of(*msg));
            (T_SAFE_ACK, 13, payload)
        },
        Msg::SessionReady { session } => {
            put_le(&mut payload, 0, session as u64, 4);
            assert(payload@.subrange(0, 4) =~= payload_of(*msg));
            (T_SESSION_READY, 4, payload)
        },
        Msg::Prepared { session } => {
            put_le(&mut payload, 0, session as u64, 4);
            assert(payload@.subrange(0, 4) =~= payload_of(*msg));
            (T_PREPARED, 4, payload)
        },
    }
}

/// Write the frame of `msg` at the front of `out` and return its length.
///
/// A buffer of `MAX_FRAME` bytes holds every frame. A buffer that is too short
/// is left as it was.
pub fn encode(msg: &Msg, out: &mut [u8]) -> (result: Result<usize, LinkError>)
    ensures
        old(out)@.len() >= wire(*msg).len() ==> {
            &&& result == Ok::<usize, LinkError>(wire(*msg).len() as usize)
            &&& final(out)@ == wire(*msg) + old(out)@.subrange(
                wire(*msg).len() as int,
                old(out)@.len() as int,
            )
        },
        old(out)@.len() < wire(*msg).len() ==> {
            &&& result == Err::<usize, LinkError>(LinkError::BufTooSmall)
            &&& final(out)@ == old(out)@
        },
{
    proof {
        lemma_payload_len(*msg);
    }
    let (ty, len, payload): (u8, usize, [u8; MAX_PAYLOAD]) = payload_bytes(msg);
    let total: usize = 4 + len + 2;
    if out.len() < total {
        return Err(LinkError::BufTooSmall);
    }
    let ghost start = out@;
    let ghost body = payload_of(*msg);
    out[0] = SYNC;
    out[1] = VERSION;
    out[2] = ty;
    out[3] = len as u8;
    let mut i: usize = 0;
    while i < len
        invariant
            i <= len,
            len <= 13,
            len == body.len(),
            out@.len() == start.len(),
            4 + len + 2 <= start.len(),
            out@[0] == SYNC,
            out@[1] == VERSION,
            out@[2] == ty,
            out@[3] == len as u8,
            payload@.subrange(0, len as int) == body,
            forall|k: int| 0 <= k < i ==> out@[4 + k] == #[trigger] body[k],
            forall|k: int| 4 + i <= k < start.len() ==> #[trigger] out@[k] == start[k],
        decreases len - i,
    {
        assert(payload@.subrange(0, len as int)[i as int] == payload@[i as int]);
        out[4 + i] = payload[i];
        i = i + 1;
    }
    let ghost inner = covered(ty, body);
    let head = [VERSION, ty, len as u8];
    proof {
        assert(payload@.subrange(0, len as int) =~= body);
        assert(head@ + body =~= inner);
    }
    let crc: u16 = crc16_split(&head, vstd::slice::slice_subrange(&payload, 0, len));
    put_le(out, 4 + len, crc as u64, 2);
    proof {
        lemma_le_bytes_len(crc as nat, 2);
        assert(out@ =~= wire(*msg) + start.subrange(total as int, start.len() as int));
    }
    Ok(total)
}

/// Read `payload` as a message of type `ty`.
pub fn decode_msg(ty: u8, payload: &[u8]) -> (result: Result<Msg, LinkError>)
    ensures
        result == message_of(ty, payload@),
{
    let len: usize = payload.len();
    proof {
        lemma_byte_spans();
        assert(payload@.subrange(0, len as int) =~= payload@);
        lemma_le_value_bound(payload@);
    }
    if ty == T_MOTOR {
        if len != 5 {
            return Err(LinkError::BadLen);
        }
        let left: u64 = get_le(payload, 1, 2);
        let right: u64 = get_le(payload, 3, 2);
        Ok(
            Msg::MotorSetpoint {
                seq: payload[0],
                left: u16_to_i16(left as u16),
                right: u16_to_i16(right as u16),
            },
        )
    } else if ty == T_ESTOP {
        if len != 1 {
            return Err(LinkError::BadLen);
        }
        Ok(Msg::Estop { assert: payload[0] != 0 })
    } else if ty == T_HB_TO_SHRIKE {
        if len != 2 {
            return Err(LinkError::BadLen);
        }
        Ok(Msg::HeartbeatToShrike { seq: get_le(payload, 0, 2) as u16 })
    } else if ty == T_HB_TO_PI {
        if len != 2 {
            return Err(LinkError::BadLen);
        }
        Ok(Msg::HeartbeatToPi { seq: get_le(payload, 0, 2) as u16 })
    } else if ty == T_SENSOR {
        if len != 4 {
            return Err(LinkError::BadLen);
        }
        Ok(
            Msg::Sensor {
                ultrasonic_echo_us: get_le(payload, 0, 2) as u16,
                estop_line: payload[2] != 0,
                flags: payload[3],
            },
        )
    } else if ty == T_SESSION_OFFER || ty == T_REQUALIFY || ty == T_SESSION_READY || ty
        == T_PREPARED {
        if len != 4 {
            return Err(LinkError::BadLen);
        }
        let session: u32 = get_le(payload, 0, 4) as u32;
        if ty == T_SESSION_OFFER {
            Ok(Msg::SessionOffer { session })
        } else if ty == T_REQUALIFY {
            Ok(Msg::Requalify { session })
        } else if ty == T_SESSION_READY {
            Ok(Msg::SessionReady { session })
        } else {
            Ok(Msg::Prepared { session })
        }
    } else if ty == T_SAFE_BARRIER || ty == T_SAFE_ACK {
        if len != 13 {
            return Err(LinkError::BadLen);
        }
        let session: u32 = get_le(payload, 0, 4) as u32;
        let correlation: u64 = get_le(payload, 4, 8);
        let sequence: u8 = payload[12];
        if ty == T_SAFE_BARRIER {
            Ok(Msg::SafeBarrier { session, correlation, sequence })
        } else {
            Ok(Msg::SafeAck { session, correlation, sequence })
        }
    } else {
        Err(LinkError::UnknownType)
    }
}

// ---------------------------------------------------------------------------
// Decoder
// ---------------------------------------------------------------------------

/// What a complete candidate frame decodes to.
pub open spec fn candidate_result(frame: Seq<u8>) -> Result<Msg, LinkError> {
    let len = frame[3] as int;
    if le_value(frame.subrange(4 + len, 6 + len)) != crc16_of(frame.subrange(1, 4 + len)) {
        Err(LinkError::BadCrc)
    } else {
        message_of(frame[2], frame.subrange(4, 4 + len))
    }
}

/// One decoder step: from the bytes of the current candidate frame (empty
/// between frames) and the next byte to the new candidate and the outcome.
pub open spec fn decode_step(candidate: Seq<u8>, byte: u8) -> (Seq<u8>, Option<
    Result<Msg, LinkError>,
>) {
    let grown = candidate.push(byte);
    if candidate.len() == 0 {
        if byte == SYNC {
            (grown, None)
        } else {
            (candidate, None)
        }
    } else if candidate.len() == 1 && byte != VERSION {
        (Seq::empty(), Some(Err(LinkError::BadVersion)))
    } else if candidate.len() == 3 && byte > MAX_PAYLOAD {
        (Seq::empty(), Some(Err(LinkError::BadLen)))
    } else if candidate.len() <= 3 || grown.len() < 6 + grown[3] {
        (grown, None)
    } else {
        (Seq::empty(), Some(candidate_result(grown)))
    }
}

/// Feed a stream: the candidate left over and the outcomes in order.
pub open spec fn decode_stream(candidate: Seq<u8>, stream: Seq<u8>) -> (Seq<u8>, Seq<
    Result<Msg, LinkError>,
>)
    decreases stream.len(),
{
    if stream.len() == 0 {
        (candidate, Seq::empty())
    } else {
        let (before, outcomes) = decode_stream(candidate, stream.drop_last());
        let (after, outcome) = decode_step(before, stream.last());
        match outcome {
            Some(result) => (after, outcomes.push(result)),
            None => (after, outcomes),
        }
    }
}

/// Law: a decoder that reports anything is between frames again, so one bad
/// candidate costs at most one resynchronisation.
pub proof fn law_outcome_resets(candidate: Seq<u8>, byte: u8)
    ensures
        decode_step(candidate, byte).1 is Some ==> decode_step(candidate, byte).0.len() == 0,
{
}

/// Law: a stream may be cut anywhere; feeding the parts in turn gives the same
/// outcomes.
pub proof fn law_stream_concat(candidate: Seq<u8>, first: Seq<u8>, second: Seq<u8>)
    ensures
        decode_stream(candidate, first + second) == ({
            let (middle, early) = decode_stream(candidate, first);
            let (end, late) = decode_stream(middle, second);
            (end, early + late)
        }),
    decreases second.len(),
{
    let (middle, early) = decode_stream(candidate, first);
    if second.len() == 0 {
        assert(first + second =~= first);
        assert(early + Seq::<Result<Msg, LinkError>>::empty() =~= early);
    } else {
        assert((first + second).drop_last() =~= first + second.drop_last());
        law_stream_concat(candidate, first, second.drop_last());
        let (before, late) = decode_stream(middle, second.drop_last());
        match decode_step(before, second.last()).1 {
            Some(result) => {
                assert((early + late).push(result) =~= early + late.push(result));
            },
            None => {},
        }
    }
}

/// A proper prefix of a frame with an acceptable length byte is held as the
/// candidate and reports nothing.
proof fn lemma_prefix_is_candidate(frame: Seq<u8>, count: int)
    requires
        frame.len() >= 6,
        frame[0] == SYNC,
        frame[1] == VERSION,
        frame[3] <= MAX_PAYLOAD,
        frame.len() == 6 + frame[3],
        0 <= count < frame.len(),
    ensures
        decode_stream(Seq::empty(), frame.subrange(0, count)) == (
            frame.subrange(0, count),
            Seq::<Result<Msg, LinkError>>::empty(),
        ),
    decreases count,
{
    let prefix = frame.subrange(0, count);
    if count == 0 {
        assert(prefix =~= Seq::empty());
    } else {
        lemma_prefix_is_candidate(frame, count - 1);
        assert(prefix.drop_last() =~= frame.subrange(0, count - 1));
        assert(frame.subrange(0, count - 1).push(frame[count - 1]) =~= prefix);
        assert(prefix.last() == frame[count - 1]);
    }
}

/// Law: a well-formed frame fed to a decoder between frames reports exactly
/// once, at its last byte. It reports the message of its type and payload, or
/// that the type is unknown or has another length, and leaves the decoder
/// between frames. `SYNC` bytes inside are data.
pub proof fn law_frame_decodes(ty: u8, payload: Seq<u8>)
    requires
        payload.len() <= MAX_PAYLOAD,
    ensures
        decode_stream(Seq::empty(), frame_of(ty, payload)) == (
            Seq::<u8>::empty(),
            seq![message_of(ty, payload)],
        ),
{
    let frame = frame_of(ty, payload);
    let n = payload.len() as int;
    let crc = crc16_of(covered(ty, payload));
    lemma_byte_spans();
    lemma_le_roundtrip(crc as nat, 2);
    assert(frame.len() == n + 6);
    assert(frame[3] == n);
    lemma_prefix_is_candidate(frame, n + 5);
    assert(frame.drop_last() =~= frame.subrange(0, n + 5));
    assert(frame.drop_last().push(frame.last()) =~= frame);
    assert(frame.subrange(4 + n, 6 + n) =~= le_bytes(crc as nat, 2));
    assert(frame.subrange(1, 4 + n) =~= covered(ty, payload));
    assert(frame.subrange(4, 4 + n) =~= payload);
    assert(Seq::<Result<Msg, LinkError>>::empty().push(message_of(ty, payload)) =~= seq![
        message_of(ty, payload),
    ]);
}

/// Law: what `encode` writes, a decoder between frames reads back as the same
/// message, once, and nothing else.
pub proof fn law_wire_roundtrip(msg: Msg)
    ensures
        decode_stream(Seq::empty(), wire(msg)) == (
            Seq::<u8>::empty(),
            seq![Ok::<Msg, LinkError>(msg)],
        ),
{
    lemma_payload_len(msg);
    law_payload_roundtrip(msg);
    law_frame_decodes(type_of(msg), payload_of(msg));
}

/// Law: a frame that lacks its end reports nothing.
pub proof fn law_truncated_is_silent(msg: Msg, count: int)
    requires
        0 <= count < wire(msg).len(),
    ensures
        decode_stream(Seq::empty(), wire(msg).subrange(0, count)).1.len() == 0,
{
    lemma_payload_len(msg);
    lemma_prefix_is_candidate(wire(msg), count);
}

/// Law: frames sent back to back are all read back, in order.
pub proof fn law_back_to_back(msgs: Seq<Msg>)
    ensures
        decode_stream(Seq::empty(), wire_all(msgs)) == (
            Seq::<u8>::empty(),
            Seq::new(msgs.len(), |i: int| Ok::<Msg, LinkError>(msgs[i])),
        ),
    decreases msgs.len(),
{
    let want = Seq::new(msgs.len(), |i: int| Ok::<Msg, LinkError>(msgs[i]));
    if msgs.len() == 0 {
        assert(want =~= Seq::empty());
    } else {
        let rest = msgs.drop_last();
        law_back_to_back(rest);
        law_wire_roundtrip(msgs.last());
        law_stream_concat(Seq::empty(), wire_all(rest), wire(msgs.last()));
        assert(want =~= Seq::new(rest.len(), |i: int| Ok::<Msg, LinkError>(rest[i])) + seq![
            Ok::<Msg, LinkError>(msgs.last()),
        ]);
    }
}

/// The frames of all messages, one after the other.
pub open spec fn wire_all(msgs: Seq<Msg>) -> Seq<u8>
    decreases msgs.len(),
{
    if msgs.len() == 0 {
        Seq::empty()
    } else {
        wire_all(msgs.drop_last()) + wire(msgs.last())
    }
}

#[derive(Clone, Copy, PartialEq, Eq, Structural)]
enum State {
    Idle,
    Ver,
    Type,
    Len,
    Payload,
    CrcLo,
    CrcHi,
}

/// Streaming, byte-fed frame decoder.
///
/// Its view is the candidate frame collected so far, empty between frames.
pub struct Decoder {
    state: State,
    ty: u8,
    len: usize,
    idx: usize,
    payload: [u8; MAX_PAYLOAD],
    crc_lo: u8,
}

impl View for Decoder {
    type V = Seq<u8>;

    closed spec fn view(&self) -> Seq<u8> {
        let header = seq![SYNC, VERSION, self.ty, self.len as u8];
        match self.state {
            State::Idle => Seq::empty(),
            State::Ver => seq![SYNC],
            State::Type => seq![SYNC, VERSION],
            State::Len => seq![SYNC, VERSION, self.ty],
            State::Payload => header + self.payload@.subrange(0, self.idx as int),
            State::CrcLo => header + self.payload@.subrange(0, self.len as int),
            State::CrcHi => header + self.payload@.subrange(0, self.len as int) + seq![
                self.crc_lo,
            ],
        }
    }
}

impl Decoder {
    /// The counters stay within the payload buffer.
    pub closed spec fn wf(&self) -> bool {
        &&& self.len <= MAX_PAYLOAD
        &&& self.state == State::Payload ==> self.idx < self.len
    }

    /// A decoder between frames.
    pub fn new() -> (decoder: Self)
        ensures
            decoder.wf(),
            decoder@ == Seq::<u8>::empty(),
    {
        Decoder {
            state: State::Idle,
            ty: 0,
            len: 0,
            idx: 0,
            payload: [0u8; MAX_PAYLOAD],
            crc_lo: 0,
        }
    }

    fn reset(&mut self)
        ensures
            final(self).state == State::Idle,
            final(self).len == old(self).len,
    {
        self.state = State::Idle;
        self.idx = 0;
    }

    /// Take one byte; `Some` when a candidate frame ends, in a message or in an
    /// error.
    pub fn push(&mut self, b: u8) -> (outcome: Option<Result<Msg, LinkError>>)
        requires
            old(self).wf(),
        ensures
            final(self).wf(),
            (final(self)@, outcome) == decode_step(old(self)@, b),
    {
        let ghost before = self@;
        match self.state {
            State::Idle => {
                if b == SYNC {
                    self.state = State::Ver;
                    assert(self@ =~= before.push(b));
                }
                None
            },
            State::Ver => {
                if b == VERSION {
                    self.state = State::Type;
                    assert(self@ =~= before.push(b));
                    None
                } else {
                    self.reset();
                    Some(Err(LinkError::BadVersion))
                }
            },
            State::Type => {
                self.ty = b;
                self.state = State::Len;
                assert(self@ =~= before.push(b));
                None
            },
            State::Len => {
                if b as usize > MAX_PAYLOAD {
                    self.reset();
                    return Some(Err(LinkError::BadLen));
                }
                self.len = b as usize;
                self.idx = 0;
                self.state = if self.len == 0 {
                    State::CrcLo
                } else {
                    State::Payload
                };
                assert(self@ =~= before.push(b));
                None
            },
            State::Payload => {
                self.payload[self.idx] = b;
                self.idx = self.idx + 1;
                if self.idx == self.len {
                    self.state = State::CrcLo;
                }
                assert(self@ =~= before.push(b));
                None
            },
            State::CrcLo => {
                self.crc_lo = b;
                self.state = State::CrcHi;
                assert(self@ =~= before.push(b));
                None
            },
            State::CrcHi => {
                let got: u16 = self.crc_lo as u16 + 256 * (b as u16);
                let hdr = [VERSION, self.ty, self.len as u8];
                let payload = vstd::slice::slice_subrange(&self.payload, 0, self.len);
                let want: u16 = crc16_split(&hdr, payload);
                proof {
                    let frame = before.push(b);
                    let len = self.len as int;
                    assert(frame.subrange(4 + len, 6 + len) =~= seq![self.crc_lo, b]);
                    reveal_with_fuel(le_value, 3);
                    assert(seq![self.crc_lo, b].drop_first() =~= seq![b]);
                    assert(frame.subrange(1, 4 + len) =~= hdr@ + payload@);
                    assert(frame.subrange(4, 4 + len) =~= payload@);
                }
                let result = if got != want {
                    Err(LinkError::BadCrc)
                } else {
                    decode_msg(self.ty, payload)
                };
                self.reset();
                Some(result)
            },
        }
    }
}

impl Default for Decoder {
    fn default() -> (decoder: Self)
        ensures
            decoder.wf(),
            decoder@ == Seq::<u8>::empty(),
    {
        Self::new()
    }
}

/// Law: the type byte of each message on the wire. Its high bit is set exactly for
/// messages to the kernel.
pub proof fn law_type_bytes(msg: Msg)
    ensures
        type_of(msg) == match msg {
            Msg::MotorSetpoint { .. } => 0x01u8,
            Msg::Estop { .. } => 0x02,
            Msg::HeartbeatToShrike { .. } => 0x03,
            Msg::SafeBarrier { .. } => 0x04,
            Msg::SessionOffer { .. } => 0x05,
            Msg::Requalify { .. } => 0x06,
            Msg::Sensor { .. } => 0x81,
            Msg::HeartbeatToPi { .. } => 0x82,
            Msg::SafeAck { .. } => 0x83,
            Msg::SessionReady { .. } => 0x84,
            Msg::Prepared { .. } => 0x85,
        },
{
}

/// Law: a frame is `7E 01`, the type, the payload's length, the payload, and the CRC
/// of everything between the first byte and itself, low byte first.
pub proof fn law_frame_layout(ty: u8, payload: Seq<u8>)
    requires
        payload.len() <= 16,
    ensures
        ({
            let frame = frame_of(ty, payload);
            let n = payload.len() as int;
            &&& frame.len() == n + 6
            &&& frame[0] == 0x7E
            &&& frame[1] == 0x01
            &&& frame[2] == ty
            &&& frame[3] == n
            &&& frame.subrange(4, 4 + n) == payload
            &&& frame[4 + n] + 256 * frame[5 + n] == crc16_of(frame.subrange(1, 4 + n))
        }),
{
    let frame = frame_of(ty, payload);
    let n = payload.len() as int;
    let crc = crc16_of(covered(ty, payload));
    crate::bytes::law_low_byte_first(crc as nat);
    lemma_le_bytes_len(crc as nat, 2);
    assert(frame.subrange(4, 4 + n) =~= payload);
    assert(frame.subrange(1, 4 + n) =~= covered(ty, payload));
    assert(frame[4 + n] == le_bytes(crc as nat, 2)[0]);
    assert(frame[5 + n] == le_bytes(crc as nat, 2)[1]);
}

/// Law: a setpoint carries its number, then the left and then the right duty, each a
/// signed 16-bit number with the low byte first.
pub proof fn law_setpoint_layout(seq: u8, left: i16, right: i16)
    ensures
        ({
            let p = payload_of(Msg::MotorSetpoint { seq, left, right });
            &&& p.len() == 5
            &&& p[0] == seq
            &&& p[1] + 256 * p[2] == left as int % 0x1_0000
            &&& p[3] + 256 * p[4] == right as int % 0x1_0000
        }),
{
    let p = payload_of(Msg::MotorSetpoint { seq, left, right });
    let l = le_bytes(u16_of_i16(left) as nat, 2);
    let r = le_bytes(u16_of_i16(right) as nat, 2);
    crate::bytes::law_low_byte_first(u16_of_i16(left) as nat);
    crate::bytes::law_low_byte_first(u16_of_i16(right) as nat);
    assert(p =~= seq![seq] + l + r);
    assert(p[1] == l[0] && p[2] == l[1] && p[3] == r[0] && p[4] == r[1]);
}

/// Law: a stop is one byte, 1 if asserted and 0 if released. A heartbeat is its
/// number. A reading is the echo time, the stop line as 1 or 0, and the flags.
/// Numbers have the low byte first.
pub proof fn law_small_payload_layouts(asserted: bool, seq: u16, echo: u16, line: bool, flags: u8)
    ensures
        ({
            let stop = payload_of(Msg::Estop { assert: asserted });
            let beat = payload_of(Msg::HeartbeatToShrike { seq });
            let back = payload_of(Msg::HeartbeatToPi { seq });
            let reading = payload_of(
                Msg::Sensor { ultrasonic_echo_us: echo, estop_line: line, flags },
            );
            &&& stop.len() == 1
            &&& stop[0] == 1 <==> asserted
            &&& stop[0] == 0 <==> !asserted
            &&& beat.len() == 2 && beat[0] + 256 * beat[1] == seq
            &&& back.len() == 2 && back[0] + 256 * back[1] == seq
            &&& reading.len() == 4
            &&& reading[0] + 256 * reading[1] == echo
            &&& reading[2] == 1 <==> line
            &&& reading[2] == 0 <==> !line
            &&& reading[3] == flags
        }),
{
    crate::bytes::law_low_byte_first(seq as nat);
    crate::bytes::law_low_byte_first(echo as nat);
    let e = le_bytes(echo as nat, 2);
    let reading = payload_of(Msg::Sensor { ultrasonic_echo_us: echo, estop_line: line, flags });
    assert(reading[0] == e[0] && reading[1] == e[1]);
}

/// Law: messages of the handoff carry the session in four bytes; the barrier and its
/// acknowledgement go on with eight bytes of correlation and the number, alike.
pub proof fn law_handoff_payload_layouts(session: u32, correlation: u64, sequence: u8)
    ensures
        ({
            let barrier = payload_of(Msg::SafeBarrier { session, correlation, sequence });
            let offer = payload_of(Msg::SessionOffer { session });
            &&& barrier.len() == 13
            &&& barrier == payload_of(Msg::SafeAck { session, correlation, sequence })
            &&& barrier.subrange(0, 4) == offer
            &&& barrier[4] + 0x100 * barrier[5] + 0x1_0000 * barrier[6] + 0x100_0000 * barrier[7]
                + 0x1_0000_0000 * (barrier[8] + 0x100 * barrier[9] + 0x1_0000 * barrier[10]
                + 0x100_0000 * barrier[11]) == correlation
            &&& barrier[12] == sequence
            &&& offer.len() == 4
            &&& offer[0] + 0x100 * offer[1] + 0x1_0000 * offer[2] + 0x100_0000 * offer[3] == session
            &&& offer == payload_of(Msg::Requalify { session })
            &&& offer == payload_of(Msg::SessionReady { session })
            &&& offer == payload_of(Msg::Prepared { session })
        }),
{
    let barrier = payload_of(Msg::SafeBarrier { session, correlation, sequence });
    let offer = payload_of(Msg::SessionOffer { session });
    let c = le_bytes(correlation as nat, 8);
    crate::bytes::law_low_byte_first(session as nat);
    crate::bytes::law_low_byte_first(correlation as nat);
    assert(barrier.subrange(0, 4) =~= offer);
    assert(barrier[4] == c[0] && barrier[5] == c[1] && barrier[6] == c[2] && barrier[7] == c[3]);
    assert(barrier[8] == c[4] && barrier[9] == c[5] && barrier[10] == c[6] && barrier[11] == c[7]);
}

/// Law: a payload is refused as unknown exactly under a type that no message has,
/// and for its length exactly if that is not the one of the type; any other payload
/// is a message of that type. Of a flag byte everything but zero counts as set.
pub proof fn law_payload_is_read(ty: u8, payload: Seq<u8>)
    ensures
        ({
            let known = 0x01 <= ty <= 0x06 || 0x81 <= ty <= 0x85;
            let result = message_of(ty, payload);
            &&& result == Err::<Msg, LinkError>(LinkError::UnknownType) <==> !known
            &&& result == Err::<Msg, LinkError>(LinkError::BadLen) <==> known && payload.len()
                != if ty == 0x01 {
                5int
            } else if ty == 0x02 {
                1
            } else if ty == 0x03 || ty == 0x82 {
                2
            } else if ty == 0x04 || ty == 0x83 {
                13
            } else {
                4
            }
            &&& result is Ok ==> type_of(result->Ok_0) == ty
            &&& result is Err ==> result->Err_0 is UnknownType || result->Err_0 is BadLen
            &&& ty == 0x02 && payload.len() == 1 ==> result == Ok::<Msg, LinkError>(
                Msg::Estop { assert: payload[0] > 0 },
            )
            &&& ty == 0x81 && payload.len() == 4 ==> match result {
                Ok(Msg::Sensor { ultrasonic_echo_us, estop_line, flags }) => {
                    &&& ultrasonic_echo_us == payload[0] + 256 * payload[1]
                    &&& estop_line == (payload[2] > 0)
                    &&& flags == payload[3]
                },
                _ => false,
            }
            &&& ty == 0x01 && payload.len() == 5 ==> match result {
                Ok(Msg::MotorSetpoint { seq, left, right }) => {
                    &&& seq == payload[0]
                    &&& left as int % 0x1_0000 == payload[1] + 256 * payload[2]
                    &&& right as int % 0x1_0000 == payload[3] + 256 * payload[4]
                },
                _ => false,
            }
        }),
{
    if ty == 0x81 && payload.len() == 4 {
        crate::bytes::lemma_value_of_two(payload.subrange(0, 2));
    }
    if ty == 0x01 && payload.len() == 5 {
        crate::bytes::lemma_value_of_two(payload.subrange(1, 3));
        crate::bytes::lemma_value_of_two(payload.subrange(3, 5));
    }
}

/// Law: between frames every byte but `7E` is passed over in silence. A frame is
/// given up at its second byte for another version than 1 and at its fourth for a
/// length above 16; nothing else is reported before its last byte.
pub proof fn law_frame_is_given_up_early(candidate: Seq<u8>, byte: u8)
    ensures
        ({
            let (after, outcome) = decode_step(candidate, byte);
            &&& candidate.len() == 0 ==> outcome is None && after == if byte == 0x7E {
                seq![byte]
            } else {
                Seq::empty()
            }
            &&& candidate.len() == 1 ==> if byte == 1 {
                outcome is None && after == candidate.push(byte)
            } else {
                outcome == Some(Err::<Msg, LinkError>(LinkError::BadVersion)) && after.len() == 0
            }
            &&& candidate.len() == 2 ==> outcome is None && after == candidate.push(byte)
            &&& candidate.len() == 3 ==> if byte <= 16 {
                outcome is None && after == candidate.push(byte)
            } else {
                outcome == Some(Err::<Msg, LinkError>(LinkError::BadLen)) && after.len() == 0
            }
            &&& candidate.len() > 3 ==> if candidate.len() + 1 < 6 + candidate[3] {
                outcome is None && after == candidate.push(byte)
            } else {
                outcome is Some && after.len() == 0
            }
        }),
{
    assert(Seq::<u8>::empty().push(byte) =~= seq![byte]);
    if candidate.len() == 0 {
        assert(candidate =~= Seq::empty());
    }
}

/// Law: a complete frame whose CRC does not match is dropped whatever it holds; with
/// a matching CRC it is what its type and payload say.
pub proof fn law_crc_decides(frame: Seq<u8>)
    requires
        frame.len() >= 6,
        frame.len() == 6 + frame[3],
    ensures
        ({
            let n = frame[3] as int;
            let matches = frame[4 + n] + 256 * frame[5 + n] == crc16_of(frame.subrange(1, 4 + n));
            candidate_result(frame) == if matches {
                message_of(frame[2], frame.subrange(4, 4 + n))
            } else {
                Err::<Msg, LinkError>(LinkError::BadCrc)
            }
        }),
{
    let n = frame[3] as int;
    crate::bytes::lemma_value_of_two(frame.subrange(4 + n, 6 + n));
}

} // verus!
