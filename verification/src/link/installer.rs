//! Fixed-size installer transport, apart from the actuator messages.
//!
//! A frame is sixteen bytes: `MAGIC`, kind and length, a 32-bit sequence number,
//! eight data bytes and a CRC over all of these. An [`Endpoint`] assembles
//! requests out of numbered frames, dispatches each complete request once and
//! hands the response out in polls. A repeated frame gets the cached reply.

use vstd::prelude::*;

use crate::bytes::{
    get_le, le_bytes, le_value, lemma_byte_spans, lemma_le_bytes_len, lemma_le_roundtrip,
    lemma_le_value_bound, lemma_le_value_roundtrip, put_le,
};
use crate::link::codec::{crc16, crc16_of};

verus! {

pub const FRAME_BYTES: usize = 16;

pub const DATA_BYTES: usize = 8;

pub const MAX_MESSAGE_BYTES: usize = 320;

pub const MAGIC: u8 = 0xA5;

#[derive(Debug, Clone, Copy, PartialEq, Eq, Structural)]
pub enum FrameKind {
    Request,
    RequestLast,
    Poll,
    Reset,
    Ack,
    Response,
    ResponseLast,
    Error,
}

/// The number of a kind on the wire.
pub open spec fn kind_code(kind: FrameKind) -> u8 {
    match kind {
        FrameKind::Request => 0,
        FrameKind::RequestLast => 1,
        FrameKind::Poll => 2,
        FrameKind::Reset => 3,
        FrameKind::Ack => 8,
        FrameKind::Response => 9,
        FrameKind::ResponseLast => 10,
        FrameKind::Error => 11,
    }
}

/// The kind with a number.
pub open spec fn kind_of(code: u8) -> Option<FrameKind> {
    if code == 0 {
        Some(FrameKind::Request)
    } else if code == 1 {
        Some(FrameKind::RequestLast)
    } else if code == 2 {
        Some(FrameKind::Poll)
    } else if code == 3 {
        Some(FrameKind::Reset)
    } else if code == 8 {
        Some(FrameKind::Ack)
    } else if code == 9 {
        Some(FrameKind::Response)
    } else if code == 10 {
        Some(FrameKind::ResponseLast)
    } else if code == 11 {
        Some(FrameKind::Error)
    } else {
        None
    }
}

/// The data lengths that a kind admits.
pub open spec fn length_fits(kind: FrameKind, len: int) -> bool {
    &&& 0 <= len <= DATA_BYTES
    &&& match kind {
        FrameKind::Poll => len == 0,
        FrameKind::Error => len == 0,
        FrameKind::Reset => len == DATA_BYTES,
        FrameKind::Ack => len == 0 || len == DATA_BYTES,
        _ => true,
    }
}

#[derive(Debug, Clone, Copy, PartialEq, Eq, Structural)]
pub enum WireError {
    BadLength,
}

#[derive(Debug, Clone, Copy, PartialEq, Eq)]
pub struct Frame {
    pub kind: FrameKind,
    pub sequence: u32,
    pub len: u8,
    pub data: [u8; DATA_BYTES],
}

/// A frame as a value.
#[verifier::ext_equal]
pub struct FrameModel {
    pub kind: FrameKind,
    pub sequence: u32,
    pub len: u8,
    pub data: Seq<u8>,
}

impl View for Frame {
    type V = FrameModel;

    open spec fn view(&self) -> FrameModel {
        FrameModel {
            kind: self.kind,
            sequence: self.sequence,
            len: self.len,
            data: self.data@,
        }
    }
}

/// `payload` filled up with zeros to the data size.
pub open spec fn padded(payload: Seq<u8>) -> Seq<u8> {
    payload + Seq::new((DATA_BYTES - payload.len()) as nat, |i: int| 0u8)
}

/// The frame of a kind that carries `payload`.
pub open spec fn frame_with(kind: FrameKind, sequence: u32, payload: Seq<u8>) -> FrameModel {
    FrameModel { kind, sequence, len: payload.len() as u8, data: padded(payload) }
}

/// The refusal of a frame.
pub open spec fn error_frame(sequence: u32) -> FrameModel {
    frame_with(FrameKind::Error, sequence, Seq::empty())
}

impl FrameModel {
    /// The meaningful part of the data.
    pub open spec fn payload(self) -> Seq<u8> {
        self.data.subrange(0, self.len as int)
    }

    /// The length suits the kind and everything behind it is zero.
    pub open spec fn canonical(self) -> bool {
        &&& self.data.len() == DATA_BYTES
        &&& length_fits(self.kind, self.len as int)
        &&& forall|i: int| self.len <= i < DATA_BYTES ==> #[trigger] self.data[i] == 0
    }

    /// What the CRC covers.
    pub open spec fn covered(self) -> Seq<u8> {
        seq![MAGIC, (kind_code(self.kind) << 4) | self.len] + le_bytes(
            self.sequence as nat,
            4,
        ) + self.data
    }

    /// The sixteen bytes on the wire.
    pub open spec fn wire(self) -> Seq<u8> {
        self.covered() + le_bytes(crc16_of(self.covered()) as nat, 2)
    }
}

impl Frame {
    /// A frame carrying `payload`, if a frame of this kind can.
    pub fn new(kind: FrameKind, sequence: u32, payload: &[u8]) -> (result: Result<Self, WireError>)
        ensures
            length_fits(kind, payload@.len() as int) ==> {
                &&& result is Ok
                &&& result->Ok_0@ == frame_with(kind, sequence, payload@)
                &&& result->Ok_0@.canonical()
            },
            !length_fits(kind, payload@.len() as int) ==> result == Err::<Frame, WireError>(
                WireError::BadLength,
            ),
    {
        let len: usize = payload.len();
        if !valid_len(kind, len) {
            return Err(WireError::BadLength);
        }
        let mut data = [0u8; DATA_BYTES];
        let mut i: usize = 0;
        while i < len
            invariant
                i <= len,
                len == payload@.len(),
                len <= DATA_BYTES,
                forall|k: int| 0 <= k < i ==> #[trigger] data@[k] == payload@[k],
                forall|k: int| i <= k < DATA_BYTES ==> #[trigger] data@[k] == 0,
            decreases len - i,
        {
            data[i] = payload[i];
            i = i + 1;
        }
        assert(data@ =~= padded(payload@));
        Ok(Frame { kind, sequence, len: len as u8, data })
    }

    /// The bytes on the wire.
    #[must_use]
    pub fn encode(&self) -> (bytes: [u8; FRAME_BYTES])
        ensures
            bytes@ == self@.wire(),
    {
        let mut bytes = [0u8; FRAME_BYTES];
        bytes[0] = MAGIC;
        bytes[1] = (self.kind.code() << 4) | self.len;
        put_le(&mut bytes, 2, self.sequence as u64, 4);
        proof {
            lemma_le_bytes_len(self.sequence as nat, 4);
        }
        let ghost header = bytes@.subrange(0, 6);
        let mut i: usize = 0;
        while i < DATA_BYTES
            invariant
                i <= DATA_BYTES,
                bytes@.subrange(0, 6) == header,
                forall|k: int| 0 <= k < i ==> #[trigger] bytes@[6 + k] == self.data@[k],
            decreases DATA_BYTES - i,
        {
            let ghost before = bytes@;
            bytes[6 + i] = self.data[i];
            i = i + 1;
            assert(bytes@.subrange(0, 6) =~= before.subrange(0, 6));
        }
        proof {
            assert forall|k: int| 0 <= k < 14 implies bytes@.subrange(0, 14)[k]
                == self@.covered()[k] by {
                if k < 6 {
                    assert(bytes@.subrange(0, 6)[k] == header[k]);
                } else {
                    assert(bytes@[6 + (k - 6)] == self.data@[k - 6]);
                }
            }
            assert(bytes@.subrange(0, 14) =~= self@.covered());
        }
        let crc: u16 = crc16(vstd::slice::slice_subrange(&bytes, 0, 14));
        put_le(&mut bytes, 14, crc as u64, 2);
        proof {
            lemma_le_bytes_len(crc as nat, 2);
            assert(bytes@ =~= self@.wire());
        }
        bytes
    }

    fn is_canonical(&self) -> (canonical: bool)
        ensures
            canonical == self@.canonical(),
    {
        let len: usize = self.len as usize;
        valid_len(self.kind, len) && zeros_from(&self.data, len)
    }

    fn same(&self, other: &Frame) -> (same: bool)
        ensures
            same == (self@ == other@),
    {
        if self.kind != other.kind || self.sequence != other.sequence || self.len != other.len {
            return false;
        }
        let mut i: usize = 0;
        while i < DATA_BYTES
            invariant
                i <= DATA_BYTES,
                forall|k: int| 0 <= k < i ==> #[trigger] self.data@[k] == other.data@[k],
            decreases DATA_BYTES - i,
        {
            if self.data[i] != other.data[i] {
                assert(self@.data[i as int] != other@.data[i as int]);
                return false;
            }
            i = i + 1;
        }
        assert(self@ =~= other@);
        true
    }
}

impl FrameKind {
    /// The number of this kind on the wire.
    pub fn code(self) -> (code: u8)
        ensures
            code == kind_code(self),
            code <= 11,
    {
        match self {
            FrameKind::Request => 0,
            FrameKind::RequestLast => 1,
            FrameKind::Poll => 2,
            FrameKind::Reset => 3,
            FrameKind::Ack => 8,
            FrameKind::Response => 9,
            FrameKind::ResponseLast => 10,
            FrameKind::Error => 11,
        }
    }

    /// The kind with this number.
    pub fn from_code(code: u8) -> (kind: Option<FrameKind>)
        ensures
            kind == kind_of(code),
    {
        if code == 0 {
            Some(FrameKind::Request)
        } else if code == 1 {
            Some(FrameKind::RequestLast)
        } else if code == 2 {
            Some(FrameKind::Poll)
        } else if code == 3 {
            Some(FrameKind::Reset)
        } else if code == 8 {
            Some(FrameKind::Ack)
        } else if code == 9 {
            Some(FrameKind::Response)
        } else if code == 10 {
            Some(FrameKind::ResponseLast)
        } else if code == 11 {
            Some(FrameKind::Error)
        } else {
            None
        }
    }
}

fn valid_len(kind: FrameKind, len: usize) -> (valid: bool)
    ensures
        valid == length_fits(kind, len as int),
{
    match kind {
        FrameKind::Poll => len == 0,
        FrameKind::Error => len == 0,
        FrameKind::Reset => len == DATA_BYTES,
        FrameKind::Ack => len == 0 || len == DATA_BYTES,
        _ => len <= DATA_BYTES,
    }
}

fn zeros_from(data: &[u8], from: usize) -> (zero: bool)
    requires
        from <= data@.len(),
    ensures
        zero == forall|i: int| from <= i < data@.len() ==> #[trigger] data@[i] == 0,
{
    let mut i: usize = from;
    while i < data.len()
        invariant
            from <= i <= data@.len(),
            forall|k: int| from <= k < i ==> #[trigger] data@[k] == 0,
        decreases data@.len() - i,
    {
        if data[i] != 0 {
            return false;
        }
        i = i + 1;
    }
    true
}

/// Kind and length share a byte, four bits each.
proof fn lemma_head_byte(code: u8, len: u8)
    requires
        code < 16,
        len < 16,
    ensures
        (code << 4) | len == 16 * code + len,
{
    assert((code << 4) | len == 16 * code + len) by (bit_vector)
        requires
            code < 16,
            len < 16,
    ;
}

/// What sixteen bytes decode to: only the canonical encoding of a frame counts.
pub open spec fn candidate(bytes: Seq<u8>) -> Option<FrameModel> {
    let frame = FrameModel {
        kind: kind_of((bytes[1] / 16) as u8)->0,
        sequence: le_value(bytes.subrange(2, 6)) as u32,
        len: (bytes[1] % 16) as u8,
        data: bytes.subrange(6, 14),
    };
    if bytes[0] == MAGIC && le_value(bytes.subrange(14, 16)) == crc16_of(bytes.subrange(0, 14))
        && kind_of((bytes[1] / 16) as u8) is Some && frame.canonical() {
        Some(frame)
    } else {
        None
    }
}

/// Law: the wire bytes of a canonical frame decode to that frame.
pub proof fn law_wire_decodes(frame: FrameModel)
    requires
        frame.canonical(),
    ensures
        frame.wire().len() == FRAME_BYTES,
        candidate(frame.wire()) == Some(frame),
{
    let bytes = frame.wire();
    let covered = frame.covered();
    lemma_byte_spans();
    lemma_le_roundtrip(frame.sequence as nat, 4);
    lemma_le_roundtrip(crc16_of(covered) as nat, 2);
    assert(bytes.subrange(0, 14) =~= covered);
    assert(bytes.subrange(2, 6) =~= le_bytes(frame.sequence as nat, 4));
    assert(bytes.subrange(6, 14) =~= frame.data);
    assert(bytes.subrange(14, 16) =~= le_bytes(crc16_of(covered) as nat, 2));
    let code = kind_code(frame.kind);
    lemma_head_byte(code, frame.len);
    assert(bytes[1] == 16 * code + frame.len);
    assert(bytes[1] / 16 == code);
    assert(bytes[1] % 16 == frame.len);
}

/// Law: a frame has one encoding only; sixteen bytes that decode are the wire
/// bytes of what they decode to.
pub proof fn law_encoding_is_unique(bytes: Seq<u8>)
    requires
        bytes.len() == FRAME_BYTES,
        candidate(bytes) is Some,
    ensures
        candidate(bytes)->0.canonical(),
        candidate(bytes)->0.wire() == bytes,
{
    let frame = candidate(bytes)->0;
    lemma_byte_spans();
    let number = bytes.subrange(2, 6);
    let crc = bytes.subrange(14, 16);
    lemma_le_value_bound(number);
    lemma_le_value_roundtrip(number);
    lemma_le_value_roundtrip(crc);
    lemma_head_byte(kind_code(frame.kind), frame.len);
    assert(16 * kind_code(frame.kind) + frame.len == bytes[1]);
    assert(frame.covered() =~= bytes.subrange(0, 14));
    assert(frame.wire() =~= bytes);
}

/// Law: sixteen bytes decode to a frame exactly if that frame is canonical and
/// they are its wire bytes.
pub proof fn law_decodes_wire_bytes_only(bytes: Seq<u8>, frame: FrameModel)
    requires
        bytes.len() == FRAME_BYTES,
    ensures
        candidate(bytes) == Some(frame) <==> frame.canonical() && frame.wire() == bytes,
{
    if candidate(bytes) == Some(frame) {
        law_encoding_is_unique(bytes);
    }
    if frame.canonical() && frame.wire() == bytes {
        law_wire_decodes(frame);
    }
}

/// Decode sixteen bytes: the canonical frame of which they are the wire bytes, or
/// `None` if they are those of no canonical frame.
pub fn decode_candidate(bytes: &[u8; FRAME_BYTES]) -> (result: Option<Frame>)
    ensures
        forall|frame: FrameModel|
            (result is Some && result->0@ == frame) <==> (#[trigger] frame.canonical()
                && frame.wire() == bytes@),
        match result {
            Some(frame) => {
                &&& candidate(bytes@) == Some(frame@)
                &&& frame@.canonical()
                &&& frame@.wire() == bytes@
            },
            None => candidate(bytes@) is None,
        },
{
    proof {
        assert forall|frame: FrameModel|
            candidate(bytes@) == Some(frame) <==> #[trigger] frame.canonical() && frame.wire()
                == bytes@ by {
            law_decodes_wire_bytes_only(bytes@, frame);
        }
    }
    if bytes[0] != MAGIC {
        return None;
    }
    proof {
        lemma_byte_spans();
    }
    let crc: u16 = crc16(vstd::slice::slice_subrange(bytes, 0, 14));
    if get_le(bytes, 14, 2) != crc as u64 {
        return None;
    }
    let kind = match FrameKind::from_code(bytes[1] / 16) {
        Some(kind) => kind,
        None => {
            return None;
        },
    };
    let len: u8 = bytes[1] % 16;
    let sequence: u32 = get_le(bytes, 2, 4) as u32;
    let mut data = [0u8; DATA_BYTES];
    let mut i: usize = 0;
    while i < DATA_BYTES
        invariant
            i <= DATA_BYTES,
            forall|k: int| 0 <= k < i ==> #[trigger] data@[k] == bytes@[6 + k],
        decreases DATA_BYTES - i,
    {
        data[i] = bytes[6 + i];
        i = i + 1;
    }
    assert(data@ =~= bytes@.subrange(6, 14));
    let frame = Frame { kind, sequence, len, data };
    if frame.is_canonical() {
        Some(frame)
    } else {
        None
    }
}

/// `bytes` from the first `MAGIC` on, empty if there is none.
pub open spec fn from_magic(bytes: Seq<u8>) -> Seq<u8>
    decreases bytes.len(),
{
    if bytes.len() == 0 || bytes[0] == MAGIC {
        bytes
    } else {
        from_magic(bytes.drop_first())
    }
}

/// One decoder step, from the bytes held and the next byte.
pub open spec fn decode_step(held: Seq<u8>, byte: u8) -> (Seq<u8>, Option<FrameModel>) {
    let grown = held.push(byte);
    if held.len() == 0 && byte != MAGIC {
        (held, None)
    } else if grown.len() < FRAME_BYTES {
        (grown, None)
    } else if candidate(grown) is Some {
        (Seq::empty(), candidate(grown))
    } else {
        (from_magic(grown.drop_first()), None)
    }
}

/// Feed a stream: the bytes held at its end and the frames found.
pub open spec fn decode_stream(held: Seq<u8>, stream: Seq<u8>) -> (Seq<u8>, Seq<FrameModel>)
    decreases stream.len(),
{
    if stream.len() == 0 {
        (held, Seq::empty())
    } else {
        let (before, frames) = decode_stream(held, stream.drop_last());
        let (after, frame) = decode_step(before, stream.last());
        match frame {
            Some(frame) => (after, frames.push(frame)),
            None => (after, frames),
        }
    }
}

proof fn lemma_prefix_is_held(bytes: Seq<u8>, count: int)
    requires
        bytes.len() == FRAME_BYTES,
        bytes[0] == MAGIC,
        0 <= count < FRAME_BYTES,
    ensures
        decode_stream(Seq::empty(), bytes.subrange(0, count)) == (
            bytes.subrange(0, count),
            Seq::<FrameModel>::empty(),
        ),
    decreases count,
{
    let prefix = bytes.subrange(0, count);
    if count == 0 {
        assert(prefix =~= Seq::empty());
    } else {
        lemma_prefix_is_held(bytes, count - 1);
        assert(prefix.drop_last() =~= bytes.subrange(0, count - 1));
        assert(bytes.subrange(0, count - 1).push(bytes[count - 1]) =~= prefix);
    }
}

/// Law: a decoder that holds nothing reads a canonical frame back from its wire
/// bytes, once, whatever the data holds.
pub proof fn law_frame_roundtrip(frame: FrameModel)
    requires
        frame.canonical(),
    ensures
        decode_stream(Seq::empty(), frame.wire()) == (Seq::<u8>::empty(), seq![frame]),
{
    law_wire_decodes(frame);
    let bytes = frame.wire();
    lemma_prefix_is_held(bytes, 15);
    assert(bytes.drop_last() =~= bytes.subrange(0, 15));
    assert(bytes.subrange(0, 15).push(bytes[15]) =~= bytes);
    assert(Seq::<FrameModel>::empty().push(frame) =~= seq![frame]);
}

/// What `from_magic` leaves is a suffix that is empty or starts with `MAGIC`.
proof fn lemma_from_magic(bytes: Seq<u8>)
    ensures
        from_magic(bytes).len() <= bytes.len(),
        from_magic(bytes).len() > 0 ==> from_magic(bytes)[0] == MAGIC,
        from_magic(bytes) == bytes.subrange(
            bytes.len() - from_magic(bytes).len(),
            bytes.len() as int,
        ),
    decreases bytes.len(),
{
    if bytes.len() > 0 && bytes[0] != MAGIC {
        let rest = bytes.drop_first();
        lemma_from_magic(rest);
        let kept = from_magic(rest).len() as int;
        assert(rest.subrange(rest.len() - kept, rest.len() as int) =~= bytes.subrange(
            bytes.len() - kept,
            bytes.len() as int,
        ));
    } else {
        assert(bytes.subrange(0, bytes.len() as int) =~= bytes);
    }
}

/// A fresh decoder holds these bytes after a stream.
pub open spec fn held_after(stream: Seq<u8>) -> Seq<u8> {
    decode_stream(Seq::empty(), stream).0
}

/// What a fresh decoder reports with byte number `n` of a stream.
pub open spec fn report_at(stream: Seq<u8>, n: int) -> Option<FrameModel> {
    decode_step(held_after(stream.subrange(0, n)), stream[n]).1
}

/// Each call of a fresh decoder adds one byte to the stream.
pub proof fn lemma_stream_push(stream: Seq<u8>, byte: u8)
    ensures
        held_after(Seq::empty()) == Seq::<u8>::empty(),
        held_after(stream.push(byte)) == decode_step(held_after(stream), byte).0,
        report_at(stream.push(byte), stream.len() as int) == decode_step(
            held_after(stream),
            byte,
        ).1,
{
    assert(stream.push(byte).drop_last() =~= stream);
    assert(stream.push(byte).subrange(0, stream.len() as int) =~= stream);
}

/// What is held is the end of the stream, short of a whole frame.
proof fn lemma_held_is_suffix(stream: Seq<u8>)
    ensures
        held_after(stream).len() < FRAME_BYTES,
        held_after(stream).len() <= stream.len(),
        held_after(stream) == stream.subrange(
            stream.len() - held_after(stream).len(),
            stream.len() as int,
        ),
    decreases stream.len(),
{
    if stream.len() == 0 {
        assert(stream.subrange(0, 0) =~= Seq::empty());
    } else {
        let before = stream.drop_last();
        lemma_held_is_suffix(before);
        let held = held_after(before);
        let grown = held.push(stream.last());
        let n = stream.len() as int;
        assert(grown =~= stream.subrange(n - grown.len(), n));
        lemma_from_magic(grown.drop_first());
        let kept = held_after(stream);
        assert(kept =~= stream.subrange(n - kept.len(), n));
    }
}

/// After a report nothing of the frame is held: what is held came later.
proof fn lemma_held_came_after(stream: Seq<u8>, n: int)
    requires
        0 <= n < stream.len(),
        report_at(stream, n) is Some,
    ensures
        held_after(stream).len() < stream.len() - n,
    decreases stream.len(),
{
    let before = stream.drop_last();
    let held = held_after(before);
    if n == stream.len() - 1 {
        assert(stream.subrange(0, n) =~= before);
    } else {
        assert(before.subrange(0, n) =~= stream.subrange(0, n));
        lemma_held_came_after(before, n);
        lemma_held_is_suffix(before);
        lemma_from_magic(held.push(stream.last()).drop_first());
    }
}

/// Law: whatever comes in, a frame that is reported is canonical and is what the
/// last sixteen bytes are the wire bytes of.
pub proof fn law_report_is_last_bytes(stream: Seq<u8>, n: int)
    requires
        0 <= n < stream.len(),
        report_at(stream, n) is Some,
    ensures
        n >= FRAME_BYTES - 1,
        report_at(stream, n)->0.canonical(),
        report_at(stream, n)->0.wire() == stream.subrange(n + 1 - FRAME_BYTES, n + 1),
{
    let before = stream.subrange(0, n);
    lemma_held_is_suffix(before);
    let grown = held_after(before).push(stream[n]);
    assert(grown =~= stream.subrange(n + 1 - FRAME_BYTES, n + 1));
    law_encoding_is_unique(grown);
}

/// Law: no byte belongs to two reported frames: two reports are a whole frame
/// apart.
pub proof fn law_reports_do_not_overlap(stream: Seq<u8>, first: int, second: int)
    requires
        0 <= first < second < stream.len(),
        report_at(stream, first) is Some,
        report_at(stream, second) is Some,
    ensures
        second - first >= FRAME_BYTES,
{
    let before = stream.subrange(0, second);
    assert(before.subrange(0, first) =~= stream.subrange(0, first));
    lemma_held_came_after(before, first);
    lemma_held_is_suffix(before);
}

/// Byte-fed frame decoder. Its view is the bytes of the frame so far.
pub struct Decoder {
    bytes: [u8; FRAME_BYTES],
    len: usize,
}

impl View for Decoder {
    type V = Seq<u8>;

    closed spec fn view(&self) -> Seq<u8> {
        self.bytes@.subrange(0, self.len as int)
    }
}

impl Decoder {
    /// There is room for one more byte.
    pub closed spec fn wf(&self) -> bool {
        self.len < FRAME_BYTES
    }

    /// Less than a frame is held.
    pub proof fn lemma_bounded(&self)
        requires
            self.wf(),
        ensures
            self@.len() < FRAME_BYTES,
    {
    }

    #[must_use]
    pub fn new() -> (decoder: Self)
        ensures
            decoder.wf(),
            decoder@ == Seq::<u8>::empty(),
    {
        let decoder = Decoder { bytes: [0u8; FRAME_BYTES], len: 0 };
        assert(decoder@ =~= Seq::<u8>::empty());
        decoder
    }

    /// Take one byte; `Some` when it completes a canonical frame. After a false
    /// start the search goes on behind its first byte.
    pub fn push(&mut self, byte: u8) -> (found: Option<Frame>)
        requires
            old(self).wf(),
        ensures
            final(self).wf(),
            ({
                let (held, frame) = decode_step(old(self)@, byte);
                &&& final(self)@ == held
                &&& match found {
                    Some(found) => frame == Some(found@),
                    None => frame is None,
                }
            }),
    {
        let ghost before = self@;
        if self.len == 0 && byte != MAGIC {
            return None;
        }
        self.bytes[self.len] = byte;
        self.len = self.len + 1;
        assert(self.bytes@.subrange(0, self.len as int) =~= before.push(byte));
        if self.len < FRAME_BYTES {
            return None;
        }
        let ghost grown = self.bytes@;
        assert(self.bytes@.subrange(0, 16) =~= self.bytes@);
        match decode_candidate(&self.bytes) {
            Some(frame) => {
                self.len = 0;
                assert(self@ =~= Seq::<u8>::empty());
                return Some(frame);
            },
            None => {},
        }
        let next: usize = self.next_magic();
        let kept: usize = FRAME_BYTES - next;
        let mut i: usize = 0;
        while i < kept
            invariant
                i <= kept,
                1 <= next <= FRAME_BYTES,
                kept == FRAME_BYTES - next,
                grown.len() == FRAME_BYTES,
                forall|k: int| 0 <= k < i ==> #[trigger] self.bytes@[k] == grown[next + k],
                forall|k: int| i <= k < FRAME_BYTES ==> #[trigger] self.bytes@[k] == grown[k],
            decreases kept - i,
        {
            self.bytes[i] = self.bytes[next + i];
            i = i + 1;
        }
        self.len = kept;
        proof {
            lemma_from_magic(grown.drop_first());
            assert(grown.subrange(next as int, 16) =~= self.bytes@.subrange(0, kept as int));
        }
        None
    }

    /// Where the next `MAGIC` behind the first byte stands; the end if nowhere.
    fn next_magic(&self) -> (next: usize)
        ensures
            1 <= next <= FRAME_BYTES,
            self.bytes@.subrange(next as int, 16) == from_magic(self.bytes@.drop_first()),
    {
        let mut next: usize = 1;
        assert(self.bytes@.subrange(1, 16) =~= self.bytes@.drop_first());
        while next < FRAME_BYTES && self.bytes[next] != MAGIC
            invariant
                1 <= next <= FRAME_BYTES,
                from_magic(self.bytes@.subrange(next as int, 16)) == from_magic(
                    self.bytes@.drop_first(),
                ),
            decreases FRAME_BYTES - next,
        {
            let ghost here = self.bytes@.subrange(next as int, 16);
            assert(here[0] == self.bytes@[next as int]);
            assert(here.drop_first() =~= self.bytes@.subrange(next + 1, 16));
            next = next + 1;
        }
        proof {
            let here = self.bytes@.subrange(next as int, 16);
            assert(here.len() > 0 ==> here[0] == self.bytes@[next as int]);
        }
        next
    }
}

impl Default for Decoder {
    fn default() -> (decoder: Self)
        ensures
            decoder.wf(),
            decoder@ == Seq::<u8>::empty(),
    {
        Self::new()
    }
}

/// The installer end of the transport. Its view is an [`EndpointModel`].
pub struct Endpoint {
    eligible: bool,
    expected_sequence: u32,
    request: [u8; MAX_MESSAGE_BYTES],
    request_len: usize,
    response: [u8; MAX_MESSAGE_BYTES],
    response_len: usize,
    response_cursor: usize,
    response_pending: bool,
    previous_request: Option<Frame>,
    previous_reply: Option<Frame>,
}

/// An accepted frame and its reply.
#[verifier::ext_equal]
pub struct Remembered {
    pub frame: FrameModel,
    pub reply: FrameModel,
}

/// The endpoint as a value.
#[verifier::ext_equal]
pub struct EndpointModel {
    /// A reset was taken.
    pub eligible: bool,
    /// The number that the next frame must carry.
    pub expected: u32,
    /// The request collected so far.
    pub request: Seq<u8>,
    /// The last response.
    pub response: Seq<u8>,
    /// How much of it was handed out.
    pub cursor: nat,
    /// The response is not handed out completely.
    pub pending: bool,
    /// The last accepted frame and its reply.
    pub previous: Option<Remembered>,
}

impl EndpointModel {
    pub open spec fn cold() -> EndpointModel {
        EndpointModel {
            eligible: false,
            expected: 0,
            request: Seq::empty(),
            response: Seq::empty(),
            cursor: 0,
            pending: false,
            previous: None,
        }
    }

    /// The frame is well formed and no repetition of the last number.
    pub open spec fn fresh(self, frame: FrameModel) -> bool {
        &&& frame.canonical()
        &&& match self.previous {
            Some(last) => last.frame.sequence != frame.sequence,
            None => true,
        }
    }

    /// The frame repeats the last accepted one exactly.
    pub open spec fn repeats(self, frame: FrameModel) -> bool {
        frame.canonical() && self.previous is Some && self.previous->0.frame == frame
    }

    /// A reset is taken with any number but the last there is.
    pub open spec fn takes_reset(self, frame: FrameModel) -> bool {
        self.fresh(frame) && frame.kind == FrameKind::Reset && frame.sequence != u32::MAX
    }

    /// Any other frame must be next in sequence.
    pub open spec fn in_sequence(self, frame: FrameModel) -> bool {
        &&& self.fresh(frame)
        &&& frame.kind != FrameKind::Reset
        &&& self.eligible
        &&& frame.sequence == self.expected
        &&& frame.sequence != u32::MAX
    }

    /// Part of a request is taken while no response waits and it fits.
    pub open spec fn takes_request(self, frame: FrameModel) -> bool {
        &&& self.in_sequence(frame)
        &&& frame.kind == FrameKind::Request || frame.kind == FrameKind::RequestLast
        &&& !self.pending
        &&& self.request.len() + frame.len <= MAX_MESSAGE_BYTES
    }

    /// A poll is taken while a response waits.
    pub open spec fn takes_poll(self, frame: FrameModel) -> bool {
        self.in_sequence(frame) && frame.kind == FrameKind::Poll && self.pending
    }

    /// The frame is taken and changes the endpoint.
    pub open spec fn takes(self, frame: FrameModel) -> bool {
        self.takes_reset(frame) || self.takes_request(frame) || self.takes_poll(frame)
    }

    /// The request with the frame's part.
    pub open spec fn grown_request(self, frame: FrameModel) -> Seq<u8> {
        self.request + frame.payload()
    }

    /// The request that this frame completes and that is to be dispatched.
    pub open spec fn dispatched(self, frame: FrameModel) -> Option<Seq<u8>> {
        if self.takes_request(frame) && frame.kind == FrameKind::RequestLast {
            Some(self.grown_request(frame))
        } else {
            None
        }
    }

    /// How far the response is handed out after the next poll.
    pub open spec fn poll_end(self) -> nat {
        if self.cursor + DATA_BYTES < self.response.len() {
            (self.cursor + DATA_BYTES) as nat
        } else {
            self.response.len()
        }
    }

    /// The reply to a poll.
    pub open spec fn poll_reply(self, sequence: u32) -> FrameModel {
        frame_with(
            if self.poll_end() == self.response.len() {
                FrameKind::ResponseLast
            } else {
                FrameKind::Response
            },
            sequence,
            self.response.subrange(self.cursor as int, self.poll_end() as int),
        )
    }

    /// The reply to a frame.
    pub open spec fn reply(self, frame: FrameModel) -> FrameModel {
        if self.repeats(frame) {
            self.previous->0.reply
        } else if self.takes_reset(frame) {
            frame_with(FrameKind::Ack, frame.sequence, frame.data)
        } else if self.takes_request(frame) {
            frame_with(FrameKind::Ack, frame.sequence, Seq::empty())
        } else if self.takes_poll(frame) {
            self.poll_reply(frame.sequence)
        } else {
            error_frame(frame.sequence)
        }
    }

    /// The endpoint after a frame; `answer` is what a dispatched request got.
    pub open spec fn after(self, frame: FrameModel, answer: Seq<u8>) -> EndpointModel {
        let remembered = EndpointModel {
            expected: (frame.sequence + 1) as u32,
            previous: Some(Remembered { frame, reply: self.reply(frame) }),
            ..self
        };
        if self.takes_reset(frame) {
            EndpointModel {
                eligible: true,
                request: Seq::empty(),
                response: Seq::empty(),
                cursor: 0,
                pending: false,
                ..remembered
            }
        } else if self.dispatched(frame) is Some {
            EndpointModel {
                request: Seq::empty(),
                response: answer,
                cursor: 0,
                pending: true,
                ..remembered
            }
        } else if self.takes_request(frame) {
            EndpointModel { request: self.grown_request(frame), ..remembered }
        } else if self.takes_poll(frame) {
            EndpointModel {
                cursor: self.poll_end(),
                pending: self.poll_end() < self.response.len(),
                ..remembered
            }
        } else {
            self
        }
    }

    /// Sizes are within the buffers, and a remembered frame is no refusal.
    pub open spec fn valid(self) -> bool {
        &&& self.request.len() <= MAX_MESSAGE_BYTES
        &&& self.response.len() <= MAX_MESSAGE_BYTES
        &&& self.cursor <= self.response.len()
        &&& match self.previous {
            Some(last) => last.reply.kind != FrameKind::Error,
            None => true,
        }
    }
}

fn error(sequence: u32) -> (frame: Frame)
    ensures
        frame@ == error_frame(sequence),
{
    let frame = Frame { kind: FrameKind::Error, sequence, len: 0, data: [0u8; DATA_BYTES] };
    assert(frame@ =~= error_frame(sequence));
    frame
}

impl View for Endpoint {
    type V = EndpointModel;

    closed spec fn view(&self) -> EndpointModel {
        EndpointModel {
            eligible: self.eligible,
            expected: self.expected_sequence,
            request: self.request@.subrange(0, self.request_len as int),
            response: self.response@.subrange(0, self.response_len as int),
            cursor: self.response_cursor as nat,
            pending: self.response_pending,
            previous: match (self.previous_request, self.previous_reply) {
                (Some(request), Some(reply)) => Some(
                    Remembered { frame: request@, reply: reply@ },
                ),
                _ => None,
            },
        }
    }
}

impl Endpoint {
    pub closed spec fn wf(&self) -> bool {
        &&& self.request_len <= MAX_MESSAGE_BYTES
        &&& self.response_len <= MAX_MESSAGE_BYTES
        &&& self.previous_request is Some <==> self.previous_reply is Some
        &&& self@.valid()
    }

    /// The whole response buffer, which a dispatcher gets as the last one left
    /// it.
    pub closed spec fn response_buffer(&self) -> [u8; MAX_MESSAGE_BYTES] {
        self.response
    }

    /// What a well-formed endpoint holds is within bounds.
    pub proof fn lemma_valid(&self)
        requires
            self.wf(),
        ensures
            self@.valid(),
    {
    }

    #[must_use]
    pub fn new() -> (endpoint: Self)
        ensures
            endpoint.wf(),
            endpoint@ == EndpointModel::cold(),
            endpoint.response_buffer()@ == Seq::new(MAX_MESSAGE_BYTES as nat, |i: int| 0u8),
    {
        let endpoint = Endpoint {
            eligible: false,
            expected_sequence: 0,
            request: [0u8; MAX_MESSAGE_BYTES],
            request_len: 0,
            response: [0u8; MAX_MESSAGE_BYTES],
            response_len: 0,
            response_cursor: 0,
            response_pending: false,
            previous_request: None,
            previous_reply: None,
        };
        assert(endpoint@ =~= EndpointModel::cold());
        assert(endpoint.response_buffer()@ =~= Seq::new(MAX_MESSAGE_BYTES as nat, |i: int| 0u8));
        endpoint
    }

    /// Take one frame and return the reply. `dispatch` is called exactly when
    /// the frame completes a request; it gets the request and the response
    /// buffer, and returns how many bytes of the buffer are the response.
    pub fn exchange<F: FnOnce(&[u8], &mut [u8; MAX_MESSAGE_BYTES]) -> usize>(
        &mut self,
        request: Frame,
        dispatch: F,
    ) -> (reply: Frame)
        requires
            old(self).wf(),
            old(self)@.dispatched(request@) is Some ==> forall|
                message: &[u8],
                buffer: &mut [u8; MAX_MESSAGE_BYTES],
            |
                message@ == old(self)@.dispatched(request@)->0 ==> #[trigger] call_requires(
                    dispatch,
                    (message, buffer),
                ),
        ensures
            final(self).wf(),
            reply@ == old(self)@.reply(request@),
            old(self)@.dispatched(request@) is None ==> final(self)@ == old(self)@.after(
                request@,
                Seq::empty(),
            ),
            old(self)@.dispatched(request@) is None ==> final(self).response_buffer() == old(
                self,
            ).response_buffer(),
            !old(self)@.takes(request@) ==> *final(self) == *old(self),
            old(self)@.dispatched(request@) is Some ==> exists|
                message: &[u8],
                buffer: &mut [u8; MAX_MESSAGE_BYTES],
                count: usize,
            |
                {
                    &&& #[trigger] call_ensures(dispatch, (message, buffer), count)
                    &&& message@ == old(self)@.dispatched(request@)->0
                    &&& *buffer == old(self).response_buffer()
                    &&& *final(buffer) == final(self).response_buffer()
                    &&& final(self)@ == old(self)@.after(
                        request@,
                        final(self).response_buffer()@.subrange(
                            0,
                            if count < MAX_MESSAGE_BYTES {
                                count as int
                            } else {
                                MAX_MESSAGE_BYTES as int
                            },
                        ),
                    )
                },
    {
        let ghost before = self@;
        let ghost taken = request@;
        if !request.is_canonical() {
            return error(request.sequence);
        }
        match (self.previous_request, self.previous_reply) {
            (Some(previous), Some(reply)) => {
                if previous.same(&request) {
                    return reply;
                }
                if previous.sequence == request.sequence {
                    return error(request.sequence);
                }
            },
            _ => {},
        }
        if request.kind == FrameKind::Reset {
            if request.sequence == u32::MAX {
                return error(request.sequence);
            }
            let reply = match Frame::new(FrameKind::Ack, request.sequence, &request.data) {
                Ok(reply) => reply,
                Err(_) => error(request.sequence),
            };
            self.request_len = 0;
            self.response_len = 0;
            self.response_cursor = 0;
            self.response_pending = false;
            self.eligible = true;
            self.expected_sequence = request.sequence + 1;
            self.previous_request = Some(request);
            self.previous_reply = Some(reply);
            assert(self@ =~= before.after(taken, Seq::empty()));
            return reply;
        }
        if !self.eligible || request.sequence != self.expected_sequence || request.sequence
            == u32::MAX {
            return error(request.sequence);
        }
        let len: usize = request.len as usize;
        if request.kind == FrameKind::Request || request.kind == FrameKind::RequestLast {
            if self.response_pending || self.request_len + len > MAX_MESSAGE_BYTES {
                return error(request.sequence);
            }
            let reply = match Frame::new(FrameKind::Ack, request.sequence, &[]) {
                Ok(reply) => reply,
                Err(_) => error(request.sequence),
            };
            assert(reply@ =~= frame_with(FrameKind::Ack, request.sequence, Seq::empty()));
            self.append(&request);
            if request.kind == FrameKind::RequestLast {
                let message = vstd::slice::slice_subrange(&self.request, 0, self.request_len);
                let mut buffer = self.response;
                assert(message@ =~= before.dispatched(taken)->0);
                let count: usize = dispatch(message, &mut buffer);
                assert(exists|x: &mut [u8; MAX_MESSAGE_BYTES]| #[trigger]
                    call_ensures(dispatch, (message, x), count) && *x == old(
                        self,
                    ).response_buffer() && *final(x) == buffer);
                self.response = buffer;
                self.response_len = if count < MAX_MESSAGE_BYTES {
                    count
                } else {
                    MAX_MESSAGE_BYTES
                };
                self.request_len = 0;
                self.response_cursor = 0;
                self.response_pending = true;
            }
            self.expected_sequence = request.sequence + 1;
            self.previous_request = Some(request);
            self.previous_reply = Some(reply);
            proof {
                if request.kind == FrameKind::RequestLast {
                    assert(self@ =~= before.after(taken, self@.response));
                } else {
                    assert(self@ =~= before.after(taken, Seq::empty()));
                }
            }
            return reply;
        }
        if request.kind == FrameKind::Poll {
            if !self.response_pending {
                return error(request.sequence);
            }
            let end: usize = if self.response_cursor + DATA_BYTES < self.response_len {
                self.response_cursor + DATA_BYTES
            } else {
                self.response_len
            };
            let kind = if end == self.response_len {
                FrameKind::ResponseLast
            } else {
                FrameKind::Response
            };
            let chunk = vstd::slice::slice_subrange(&self.response, self.response_cursor, end);
            assert(chunk@ =~= before.response.subrange(before.cursor as int, end as int));
            let reply = match Frame::new(kind, request.sequence, chunk) {
                Ok(reply) => reply,
                Err(_) => error(request.sequence),
            };
            self.response_cursor = end;
            self.response_pending = end != self.response_len;
            self.expected_sequence = request.sequence + 1;
            self.previous_request = Some(request);
            self.previous_reply = Some(reply);
            assert(self@ =~= before.after(taken, Seq::empty()));
            return reply;
        }
        error(request.sequence)
    }

    /// Append the frame's payload to the request.
    fn append(&mut self, frame: &Frame)
        requires
            old(self).request_len + frame.len <= MAX_MESSAGE_BYTES,
            frame.len <= DATA_BYTES,
        ensures
            final(self).request_len == old(self).request_len + frame.len,
            final(self).request@.subrange(0, final(self).request_len as int) == old(
                self,
            ).request@.subrange(0, old(self).request_len as int) + frame@.payload(),
            final(self).eligible == old(self).eligible,
            final(self).expected_sequence == old(self).expected_sequence,
            final(self).response == old(self).response,
            final(self).response_len == old(self).response_len,
            final(self).response_cursor == old(self).response_cursor,
            final(self).response_pending == old(self).response_pending,
            final(self).previous_request == old(self).previous_request,
            final(self).previous_reply == old(self).previous_reply,
    {
        let ghost start = self.request@;
        let base: usize = self.request_len;
        let len: usize = frame.len as usize;
        let mut request = self.request;
        let mut i: usize = 0;
        while i < len
            invariant
                i <= len,
                len == frame.len,
                len <= DATA_BYTES,
                base + len <= MAX_MESSAGE_BYTES,
                start.len() == MAX_MESSAGE_BYTES,
                forall|k: int| 0 <= k < base ==> #[trigger] request@[k] == start[k],
                forall|k: int| 0 <= k < i ==> #[trigger] request@[base + k] == frame.data@[k],
            decreases len - i,
        {
            request[base + i] = frame.data[i];
            i = i + 1;
        }
        self.request = request;
        self.request_len = base + len;
        proof {
            let got = self.request@.subrange(0, base + len);
            let want = start.subrange(0, base as int) + frame@.payload();
            assert forall|k: int| 0 <= k < base + len implies got[k] == want[k] by {
                if k >= base {
                    assert(request@[base + (k - base)] == frame.data@[k - base]);
                }
            }
            assert(got =~= want);
        }
    }
}

impl Default for Endpoint {
    fn default() -> (endpoint: Self)
        ensures
            endpoint.wf(),
            endpoint@ == EndpointModel::cold(),
            endpoint.response_buffer()@ == Seq::new(MAX_MESSAGE_BYTES as nat, |i: int| 0u8),
    {
        Self::new()
    }
}

/// Law: an accepted frame that is repeated gets the same reply, is not
/// dispatched again and changes nothing.
pub proof fn law_duplicate_is_idempotent(
    endpoint: EndpointModel,
    frame: FrameModel,
    answer: Seq<u8>,
    other: Seq<u8>,
)
    requires
        endpoint.takes(frame),
    ensures
        ({
            let after = endpoint.after(frame, answer);
            &&& after.reply(frame) == endpoint.reply(frame)
            &&& after.dispatched(frame) is None
            &&& after.after(frame, other) == after
        }),
{
}

/// Law: a refusal changes nothing, consumes no number and dispatches nothing.
pub proof fn law_refusal_changes_nothing(
    endpoint: EndpointModel,
    frame: FrameModel,
    answer: Seq<u8>,
)
    requires
        endpoint.valid(),
        endpoint.reply(frame).kind == FrameKind::Error,
    ensures
        endpoint.after(frame, answer) == endpoint,
        endpoint.dispatched(frame) is None,
{
}

/// Law: nothing but a reset is taken before the first reset.
pub proof fn law_cold_endpoint_needs_reset(frame: FrameModel)
    requires
        frame.kind != FrameKind::Reset,
    ensures
        EndpointModel::cold().reply(frame) == error_frame(frame.sequence),
{
}

/// The parts of a message, joined.
pub open spec fn joined(parts: Seq<Seq<u8>>) -> Seq<u8>
    decreases parts.len(),
{
    if parts.len() == 0 {
        Seq::empty()
    } else {
        joined(parts.drop_last()) + parts.last()
    }
}

/// The frame of part `i` of a message whose first part has number `start`.
pub open spec fn part_frame(parts: Seq<Seq<u8>>, start: int, i: int) -> FrameModel {
    frame_with(
        if i == parts.len() - 1 {
            FrameKind::RequestLast
        } else {
            FrameKind::Request
        },
        (start + i) as u32,
        parts[i],
    )
}

/// The endpoint after the first `count` parts of a message, the last one not
/// among them.
pub open spec fn after_parts(
    endpoint: EndpointModel,
    parts: Seq<Seq<u8>>,
    start: int,
    count: int,
) -> EndpointModel
    decreases count,
{
    if count <= 0 {
        endpoint
    } else {
        after_parts(endpoint, parts, start, count - 1).after(
            part_frame(parts, start, count - 1),
            Seq::empty(),
        )
    }
}

proof fn lemma_joined_grows(parts: Seq<Seq<u8>>, count: int)
    requires
        0 <= count <= parts.len(),
    ensures
        joined(parts.subrange(0, count)).len() <= joined(parts).len(),
    decreases parts.len(),
{
    if count == parts.len() {
        assert(parts.subrange(0, count) =~= parts);
    } else {
        lemma_joined_grows(parts.drop_last(), count);
        assert(parts.drop_last().subrange(0, count) =~= parts.subrange(0, count));
    }
}

proof fn lemma_parts_are_collected(
    endpoint: EndpointModel,
    parts: Seq<Seq<u8>>,
    start: int,
    count: int,
)
    requires
        endpoint.eligible,
        endpoint.request == Seq::<u8>::empty(),
        !endpoint.pending,
        endpoint.expected == start,
        endpoint.previous is Some,
        endpoint.previous->0.frame.sequence == start - 1,
        forall|i: int| 0 <= i < parts.len() ==> (#[trigger] parts[i]).len() <= DATA_BYTES,
        joined(parts).len() <= MAX_MESSAGE_BYTES,
        0 < start,
        start + parts.len() <= u32::MAX,
        0 <= count < parts.len(),
    ensures
        ({
            let before = after_parts(endpoint, parts, start, count);
            let frame = part_frame(parts, start, count);
            &&& before.eligible
            &&& !before.pending
            &&& before.request == joined(parts.subrange(0, count))
            &&& before.expected == start + count
            &&& before.previous is Some
            &&& before.previous->0.frame.sequence == start + count - 1
            &&& before.takes_request(frame)
            &&& before.grown_request(frame) == joined(parts.subrange(0, count + 1))
        }),
    decreases count,
{
    let before = after_parts(endpoint, parts, start, count);
    let frame = part_frame(parts, start, count);
    if count == 0 {
        assert(parts.subrange(0, 0) =~= Seq::empty());
    } else {
        lemma_parts_are_collected(endpoint, parts, start, count - 1);
        let last = part_frame(parts, start, count - 1);
        let earlier = after_parts(endpoint, parts, start, count - 1);
        assert(before == earlier.after(last, Seq::empty()));
        assert(earlier.dispatched(last) is None);
        assert(before.request == earlier.grown_request(last));
    }
    assert(before.request == joined(parts.subrange(0, count)));
    let grown = parts.subrange(0, count + 1);
    assert(grown.drop_last() =~= parts.subrange(0, count));
    assert(grown.last() == parts[count]);
    lemma_joined_grows(parts, count + 1);
    assert(parts[count].len() <= DATA_BYTES);
    assert(frame.payload() =~= parts[count]);
    assert(frame.canonical());
    assert(before.takes_request(frame));
    assert(before.grown_request(frame) == joined(grown));
}

/// Law: after a reset, a message of any number of parts, sent in sequence, is
/// dispatched once, with its last part, and as a whole; each part is
/// acknowledged under its own number.
pub proof fn law_parts_make_one_request(
    endpoint: EndpointModel,
    reset: FrameModel,
    answer: Seq<u8>,
    parts: Seq<Seq<u8>>,
    i: int,
)
    requires
        endpoint.takes_reset(reset),
        forall|k: int| 0 <= k < parts.len() ==> (#[trigger] parts[k]).len() <= DATA_BYTES,
        joined(parts).len() <= MAX_MESSAGE_BYTES,
        reset.sequence + parts.len() < u32::MAX,
        0 <= i < parts.len(),
    ensures
        ({
            let start = reset.sequence + 1;
            let before = after_parts(endpoint.after(reset, answer), parts, start, i);
            let frame = part_frame(parts, start, i);
            &&& before.reply(frame) == frame_with(
                FrameKind::Ack,
                (start + i) as u32,
                Seq::empty(),
            )
            &&& before.dispatched(frame) == if i == parts.len() - 1 {
                Some(joined(parts))
            } else {
                None
            }
        }),
{
    let ready = endpoint.after(reset, answer);
    lemma_parts_are_collected(ready, parts, reset.sequence + 1, i);
    if i == parts.len() - 1 {
        assert(parts.subrange(0, i + 1) =~= parts);
    }
}

/// A poll with the expected number.
pub open spec fn next_poll(endpoint: EndpointModel) -> FrameModel {
    frame_with(FrameKind::Poll, endpoint.expected, Seq::empty())
}

/// The endpoint after `count` polls.
pub open spec fn polled(endpoint: EndpointModel, count: nat) -> EndpointModel
    decreases count,
{
    if count == 0 {
        endpoint
    } else {
        let before = polled(endpoint, (count - 1) as nat);
        before.after(next_poll(before), Seq::empty())
    }
}

/// The data that `count` polls hand out, joined.
pub open spec fn collected(endpoint: EndpointModel, count: nat) -> Seq<u8>
    decreases count,
{
    if count == 0 {
        Seq::empty()
    } else {
        let before = polled(endpoint, (count - 1) as nat);
        collected(endpoint, (count - 1) as nat) + before.reply(next_poll(before)).payload()
    }
}

/// Law: after a dispatch, polls in sequence hand out the response piece by
/// piece: as many polls as it takes yield the response, and the last of them
/// says so.
pub proof fn law_polls_hand_out_response(endpoint: EndpointModel, count: nat)
    requires
        endpoint.valid(),
        endpoint.eligible,
        endpoint.pending,
        endpoint.cursor == 0,
        endpoint.expected + count < u32::MAX,
        match endpoint.previous {
            Some(last) => last.frame.sequence < endpoint.expected,
            None => true,
        },
        count > 0 ==> (count - 1) * DATA_BYTES < endpoint.response.len() || count == 1,
    ensures
        ({
            let handed = if count * DATA_BYTES < endpoint.response.len() {
                (count * DATA_BYTES) as nat
            } else {
                endpoint.response.len()
            };
            let after = polled(endpoint, count);
            &&& collected(endpoint, count) == endpoint.response.subrange(0, handed as int)
            &&& after.cursor == handed
            &&& after.response == endpoint.response
            &&& after.eligible
            &&& after.expected == endpoint.expected + count
            &&& match after.previous {
                Some(last) => last.frame.sequence < after.expected,
                None => true,
            }
            &&& after.pending == (count == 0 || handed < endpoint.response.len())
            &&& count > 0 ==> (handed == endpoint.response.len() <==> polled(
                endpoint,
                (count - 1) as nat,
            ).reply(next_poll(polled(endpoint, (count - 1) as nat))).kind
                == FrameKind::ResponseLast)
        }),
    decreases count,
{
    if count == 0 {
        assert(endpoint.response.subrange(0, 0) =~= Seq::empty());
    } else {
        law_polls_hand_out_response(endpoint, (count - 1) as nat);
        let before = polled(endpoint, (count - 1) as nat);
        let frame = next_poll(before);
        assert(frame.canonical());
        assert(before.takes_poll(frame));
        let chunk = before.response.subrange(before.cursor as int, before.poll_end() as int);
        assert(before.reply(frame).payload() =~= chunk);
        assert(endpoint.response.subrange(0, before.cursor as int) + chunk
            =~= endpoint.response.subrange(0, before.poll_end() as int));
    }
}

/// Law: sixteen bytes on the wire: `A5`, the kind's number in the high and the length in
/// the low half of a byte, the sequence number with the low byte first, eight bytes of
/// data, and the CRC of all that, low byte first.
pub proof fn law_installer_wire_layout(frame: FrameModel)
    requires
        frame.canonical(),
    ensures
        ({
            let w = frame.wire();
            let kind = match frame.kind {
                FrameKind::Request => 0int,
                FrameKind::RequestLast => 1,
                FrameKind::Poll => 2,
                FrameKind::Reset => 3,
                FrameKind::Ack => 8,
                FrameKind::Response => 9,
                FrameKind::ResponseLast => 10,
                FrameKind::Error => 11,
            };
            &&& w.len() == 16
            &&& w[0] == 0xA5
            &&& w[1] == 16 * kind + frame.len
            &&& w[2] + 0x100 * w[3] + 0x1_0000 * w[4] + 0x100_0000 * w[5] == frame.sequence
            &&& w.subrange(6, 14) == frame.data
            &&& w[14] + 0x100 * w[15] == crc16_of(w.subrange(0, 14))
        }),
{
    let w = frame.wire();
    law_wire_decodes(frame);
    let number = le_bytes(frame.sequence as nat, 4);
    let crc = le_bytes(crc16_of(frame.covered()) as nat, 2);
    crate::bytes::law_low_byte_first(frame.sequence as nat);
    crate::bytes::law_low_byte_first(crc16_of(frame.covered()) as nat);
    lemma_head_byte(kind_code(frame.kind), frame.len);
    assert(w[2] == number[0] && w[3] == number[1] && w[4] == number[2] && w[5] == number[3]);
    assert(w.subrange(6, 14) =~= frame.data);
    assert(w.subrange(0, 14) =~= frame.covered());
    assert(w[14] == crc[0] && w[15] == crc[1]);
}

/// Law: at most eight bytes of data fit a frame. A poll and a refusal carry none, a reset
/// carries eight, and an acknowledgement none or eight. What is behind the data is zero.
pub proof fn law_installer_lengths(kind: FrameKind, len: int, frame: FrameModel)
    ensures
        length_fits(kind, len) <==> match kind {
            FrameKind::Poll => len == 0,
            FrameKind::Error => len == 0,
            FrameKind::Reset => len == 8,
            FrameKind::Ack => len == 0 || len == 8,
            _ => 0 <= len <= 8,
        },
        frame.canonical() ==> frame.data.len() == 8 && frame.payload().len() == frame.len
            && frame.data.subrange(0, frame.len as int) == frame.payload() && forall|i: int|
            frame.len <= i < 8 ==> #[trigger] frame.data[i] == 0,
{
}

/// Law: a frame that carries a payload carries it, its length, and zeros behind it.
pub proof fn law_payload_is_padded(kind: FrameKind, sequence: u32, payload: Seq<u8>)
    requires
        payload.len() <= 8,
    ensures
        ({
            let frame = frame_with(kind, sequence, payload);
            &&& frame.kind == kind
            &&& frame.sequence == sequence
            &&& frame.len == payload.len()
            &&& frame.payload() == payload
            &&& frame.data.len() == 8
            &&& forall|i: int| payload.len() <= i < 8 ==> #[trigger] frame.data[i] == 0
        }),
{
    let frame = frame_with(kind, sequence, payload);
    assert(frame.payload() =~= payload);
}

/// Law: what is no start of a frame is skipped without a trace.
pub proof fn law_installer_skips_junk(junk: Seq<u8>)
    requires
        forall|i: int| 0 <= i < junk.len() ==> #[trigger] junk[i] != 0xA5,
    ensures
        decode_stream(Seq::empty(), junk) == (Seq::<u8>::empty(), Seq::<FrameModel>::empty()),
    decreases junk.len(),
{
    if junk.len() > 0 {
        law_installer_skips_junk(junk.drop_last());
        assert(junk[junk.len() - 1] != 0xA5);
    }
}

/// Law: after a false start the search goes on at the next `A5` inside it: everything
/// from there on is held, and nothing before it.
pub proof fn law_installer_resynchronises(held: Seq<u8>, byte: u8)
    requires
        held.len() == 15,
        candidate(held.push(byte)) is None,
    ensures
        ({
            let grown = held.push(byte);
            let kept = decode_step(held, byte).0;
            let from = 16 - kept.len();
            &&& decode_step(held, byte).1 is None
            &&& 1 <= from <= 16
            &&& kept == grown.subrange(from, 16)
            &&& kept.len() > 0 ==> kept[0] == 0xA5
            &&& forall|i: int| 1 <= i < from ==> #[trigger] grown[i] != 0xA5
        }),
{
    let grown = held.push(byte);
    let rest = grown.drop_first();
    lemma_from_magic(rest);
    lemma_before_magic(rest);
    let kept = from_magic(rest);
    let from = 16 - kept.len();
    assert(kept =~= grown.subrange(from, 16));
    assert forall|i: int| 1 <= i < from implies #[trigger] grown[i] != 0xA5 by {
        assert(rest[i - 1] == grown[i]);
    }
}

proof fn lemma_before_magic(bytes: Seq<u8>)
    ensures
        forall|i: int|
            0 <= i < bytes.len() - from_magic(bytes).len() ==> #[trigger] bytes[i] != MAGIC,
    decreases bytes.len(),
{
    if bytes.len() > 0 && bytes[0] != MAGIC {
        let rest = bytes.drop_first();
        lemma_before_magic(rest);
        assert forall|i: int|
            0 <= i < bytes.len() - from_magic(bytes).len() implies #[trigger] bytes[i] != MAGIC by {
            if i > 0 {
                assert(rest[i - 1] == bytes[i]);
            }
        }
    }
}

/// Law: how an endpoint answers. An exact repetition gets the reply again. A reset is
/// acknowledged with its own data and starts over, whatever came before. A part of a
/// request is acknowledged, a poll gets the next eight bytes of the response or what is
/// left, and everything else is refused. Every reply carries the number of its frame.
pub proof fn law_endpoint_replies(e: EndpointModel, frame: FrameModel, answer: Seq<u8>)
    requires
        e.valid(),
        frame.canonical(),
        e.previous is Some ==> e.previous->0.frame.sequence != frame.sequence,
    ensures
        ({
            let reply = e.reply(frame);
            let after = e.after(frame, answer);
            let next = e.eligible && frame.sequence == e.expected && frame.sequence < 0xFFFF_FFFF;
            let request = frame.kind is Request || frame.kind is RequestLast;
            &&& reply.sequence == frame.sequence
            &&& frame.kind is Reset && frame.sequence < 0xFFFF_FFFF ==> {
                &&& reply.kind is Ack && reply.payload() == frame.data
                &&& after.eligible && !after.pending
                &&& after.request.len() == 0 && after.response.len() == 0
                &&& after.expected == frame.sequence + 1
            }
            &&& request && next && !e.pending && e.request.len() + frame.len <= 320 ==> {
                &&& reply.kind is Ack && reply.len == 0
                &&& after.expected == frame.sequence + 1
                &&& frame.kind is Request ==> after.request == e.request + frame.payload()
                    && !after.pending && e.dispatched(frame) is None
                &&& frame.kind is RequestLast ==> after.request.len() == 0 && after.pending
                    && after.response == answer && after.cursor == 0 && e.dispatched(frame) == Some(
                    e.request + frame.payload(),
                )
            }
            &&& frame.kind is Poll && next && e.pending ==> {
                let left = e.response.len() - e.cursor;
                let take = if left > 8 {
                    8
                } else {
                    left
                };
                &&& reply.payload() == e.response.subrange(e.cursor as int, e.cursor + take)
                &&& reply.kind is ResponseLast <==> left <= 8
                &&& reply.kind is Response <==> left > 8
                &&& after.pending <==> left > 8
                &&& after.cursor == e.cursor + take
                &&& after.response == e.response
                &&& after.expected == frame.sequence + 1
                &&& e.dispatched(frame) is None
            }
            &&& frame.sequence == 0xFFFF_FFFF || (!(frame.kind is Reset) && !next) || (request && (
            e.pending || e.request.len() + frame.len > 320)) || (frame.kind is Poll && !e.pending)
                || !(request || frame.kind is Poll || frame.kind is Reset) ==> {
                &&& reply.kind is Error && reply.len == 0
                &&& after == e
                &&& e.dispatched(frame) is None
            }
        }),
{
    if e.takes_reset(frame) {
        law_payload_is_padded(FrameKind::Ack, frame.sequence, frame.data);
    }
    if e.takes_poll(frame) {
        let part = e.response.subrange(e.cursor as int, e.poll_end() as int);
        law_payload_is_padded(e.reply(frame).kind, frame.sequence, part);
    }
}

} // verus!
