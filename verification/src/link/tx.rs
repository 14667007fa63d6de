//! Bounded, frame-aware transmit state of the control link.
//!
//! At most one frame is being sent and at most one motor pair waits behind it.
//! A frame that has put a byte on the wire always finishes.

use vstd::prelude::*;

use crate::link::codec::{encode, lemma_payload_len, wire, Msg, MAX_FRAME};

verus! {

/// Where a motor request came from. For correlation only.
#[derive(Clone, Copy, Debug, PartialEq, Eq, Structural)]
pub struct MotorOrigin {
    pub cycle: u64,
    pub generation: u64,
    pub artifact_handle: u32,
}

#[derive(Clone, Copy, Debug, PartialEq, Eq, Structural)]
pub struct MotorRequest {
    pub left: i16,
    pub right: i16,
    pub queued_at: u64,
    pub origin: Option<MotorOrigin>,
}

#[derive(Clone, Copy, Debug, PartialEq, Eq, Structural)]
pub struct MotorFrame {
    pub request: MotorRequest,
    pub sequence: u8,
    /// A zero crossing, inserted while the real target stays pending.
    pub intermediate_zero: bool,
}

/// What a mutation removed.
#[derive(Clone, Copy, Debug, PartialEq, Eq, Structural)]
pub struct MotorDiscards {
    pub pending: Option<MotorRequest>,
    pub frame: Option<MotorFrame>,
}

impl Default for MotorDiscards {
    fn default() -> (none: Self)
        ensures
            none == (MotorDiscards { pending: None, frame: None }),
    {
        MotorDiscards { pending: None, frame: None }
    }
}

/// A handoff message on its way out, with the local operation it belongs to.
#[derive(Clone, Copy, Debug, PartialEq, Eq, Structural)]
pub struct HandoffFrame {
    pub message: Msg,
    pub operation: Option<u64>,
}

/// The frame whose last byte was accepted.
#[derive(Clone, Copy, Debug, PartialEq, Eq, Structural)]
pub enum FrameCompletion {
    Motor(MotorFrame),
    Handoff(HandoffFrame),
}

#[derive(Clone, Copy)]
struct Frame {
    bytes: [u8; MAX_FRAME],
    len: u8,
    sent: u8,
    motor: Option<MotorFrame>,
    handoff: Option<HandoffFrame>,
    clears_motor: bool,
    queued_at: u64,
}

/// Transmit state. Its view is a [`TxModel`].
pub struct TxState {
    active: Option<Frame>,
    pending_motor: Option<MotorRequest>,
    last_motor_on_wire: (i16, i16),
}

/// A frame being sent: its wire bytes and how many of them are gone.
#[verifier::ext_equal]
pub struct FrameModel {
    pub wire: Seq<u8>,
    pub sent: nat,
    pub motor: Option<MotorFrame>,
    pub handoff: Option<HandoffFrame>,
    pub clears_motor: bool,
    pub queued_at: u64,
}

/// The transmit state as a value.
#[verifier::ext_equal]
pub struct TxModel {
    /// The frame being sent.
    pub active: Option<FrameModel>,
    /// The motor pair waiting to be framed.
    pub pending_motor: Option<MotorRequest>,
    /// The motor pair that last left completely.
    pub last_motor_on_wire: (i16, i16),
}

/// The two duties turn a wheel in opposite directions.
pub open spec fn reverses(current: i16, target: i16) -> bool {
    (current < 0 && target > 0) || (current > 0 && target < 0)
}

/// `now - since`, or zero if the clock went back.
pub open spec fn age(now: u64, since: u64) -> int {
    if now < since {
        0
    } else {
        now - since
    }
}

/// The motor pair that a message carries.
pub open spec fn motor_of(msg: Msg, now: u64) -> Option<MotorFrame> {
    match msg {
        Msg::MotorSetpoint { seq, left, right } => Some(
            MotorFrame {
                request: MotorRequest { left, right, queued_at: now, origin: None },
                sequence: seq,
                intermediate_zero: false,
            },
        ),
        _ => None,
    }
}

/// The peer stands still once it has this message.
pub open spec fn stops_motor(msg: Msg) -> bool {
    match msg {
        Msg::Estop { assert: asserted } => asserted,
        Msg::SafeBarrier { .. } => true,
        Msg::SessionOffer { .. } => true,
        _ => false,
    }
}

/// The frame of `msg` before its first byte.
pub open spec fn fresh_frame(msg: Msg, now: u64) -> FrameModel {
    FrameModel {
        wire: wire(msg),
        sent: 0,
        motor: motor_of(msg, now),
        handoff: None,
        clears_motor: stops_motor(msg),
        queued_at: now,
    }
}

impl FrameModel {
    pub open spec fn completion(self) -> Option<FrameCompletion> {
        match (self.motor, self.handoff) {
            (Some(motor), _) => Some(FrameCompletion::Motor(motor)),
            (None, Some(handoff)) => Some(FrameCompletion::Handoff(handoff)),
            (None, None) => None,
        }
    }

    /// A motor frame of which nothing is on the wire yet.
    pub open spec fn unsent_motor(self) -> bool {
        self.motor is Some && self.sent == 0
    }
}

impl TxModel {
    pub open spec fn empty() -> TxModel {
        TxModel { active: None, pending_motor: None, last_motor_on_wire: (0, 0) }
    }

    /// The next byte to put on the wire.
    pub open spec fn next(self) -> Option<u8> {
        match self.active {
            Some(frame) => Some(frame.wire[frame.sent as int]),
            None => None,
        }
    }

    /// The next byte is the last one of its frame.
    pub open spec fn finishing(self) -> bool {
        self.active is Some && self.active->0.sent + 1 == self.active->0.wire.len()
    }

    /// What is reported with the next byte.
    pub open spec fn next_completion(self) -> Option<FrameCompletion> {
        if self.finishing() {
            self.active->0.completion()
        } else {
            None
        }
    }

    /// The state once the next byte was accepted.
    pub open spec fn advanced(self) -> TxModel {
        match self.active {
            None => self,
            Some(frame) => if self.finishing() {
                TxModel {
                    active: None,
                    last_motor_on_wire: match frame.motor {
                        Some(motor) => (motor.request.left, motor.request.right),
                        None => if frame.clears_motor {
                            (0, 0)
                        } else {
                            self.last_motor_on_wire
                        },
                    },
                    ..self
                }
            } else {
                TxModel { active: Some(FrameModel { sent: frame.sent + 1, ..frame }), ..self }
            },
        }
    }

    /// The state after `count` accepted bytes.
    pub open spec fn advanced_by(self, count: nat) -> TxModel
        decreases count,
    {
        if count == 0 {
            self
        } else {
            self.advanced_by((count - 1) as nat).advanced()
        }
    }

    /// The motor pair to frame next, and whether it is an inserted zero
    /// crossing: a wheel that turns one way passes through zero before it turns
    /// the other way.
    pub open spec fn next_motor(self) -> Option<(MotorRequest, bool)> {
        match self.pending_motor {
            None => None,
            Some(request) => if reverses(self.last_motor_on_wire.0, request.left) || reverses(
                self.last_motor_on_wire.1,
                request.right,
            ) {
                Some((MotorRequest { left: 0, right: 0, ..request }, true))
            } else {
                Some((request, false))
            },
        }
    }

    /// The motor frame that a pending pair becomes under `sequence`.
    pub open spec fn next_motor_frame(self, sequence: u8) -> Option<MotorFrame> {
        match self.next_motor() {
            Some((request, intermediate_zero)) if self.active is None => Some(
                MotorFrame { request, sequence, intermediate_zero },
            ),
            _ => None,
        }
    }

    /// The state once that frame is started.
    pub open spec fn motor_started(self, sequence: u8) -> TxModel {
        match self.next_motor_frame(sequence) {
            None => self,
            Some(motor) => TxModel {
                active: Some(
                    FrameModel {
                        motor: Some(motor),
                        ..fresh_frame(
                            Msg::MotorSetpoint {
                                seq: sequence,
                                left: motor.request.left,
                                right: motor.request.right,
                            },
                            motor.request.queued_at,
                        )
                    },
                ),
                pending_motor: if motor.intermediate_zero {
                    self.pending_motor
                } else {
                    None
                },
                ..self
            },
        }
    }

    /// Without a frame that has not put a byte on the wire.
    pub open spec fn without_unsent(self) -> TxModel {
        if self.active is Some && self.active->0.sent == 0 {
            TxModel { active: None, ..self }
        } else {
            self
        }
    }

    pub open spec fn unsent_discard(self) -> Option<MotorFrame> {
        if self.active is Some && self.active->0.sent == 0 {
            self.active->0.motor
        } else {
            None
        }
    }

    pub open spec fn with_pending(self, request: MotorRequest) -> TxModel {
        TxModel { pending_motor: Some(request), ..self }
    }

    /// Without an unsent motor frame.
    pub open spec fn without_unsent_motor(self) -> TxModel {
        if self.active is Some && self.active->0.unsent_motor() {
            TxModel { active: None, ..self }
        } else {
            self
        }
    }

    pub open spec fn unsent_motor_discard(self) -> Option<MotorFrame> {
        if self.active is Some && self.active->0.unsent_motor() {
            self.active->0.motor
        } else {
            None
        }
    }

    /// The waiting pair is too old.
    pub open spec fn pending_expired(self, now: u64, timeout: u64) -> bool {
        self.pending_motor is Some && age(now, self.pending_motor->0.queued_at) >= timeout
    }

    /// The unsent motor frame is too old.
    pub open spec fn frame_expired(self, now: u64, timeout: u64) -> bool {
        self.active is Some && self.active->0.unsent_motor() && age(
            now,
            self.active->0.queued_at,
        ) >= timeout
    }

    pub open spec fn without_expired(self, now: u64, timeout: u64) -> TxModel {
        TxModel {
            active: if self.frame_expired(now, timeout) {
                None
            } else {
                self.active
            },
            pending_motor: if self.pending_expired(now, timeout) {
                None
            } else {
                self.pending_motor
            },
            ..self
        }
    }

    pub open spec fn expired_discard(self, now: u64, timeout: u64) -> MotorDiscards {
        MotorDiscards {
            pending: if self.pending_expired(now, timeout) {
                self.pending_motor
            } else {
                None
            },
            frame: if self.frame_expired(now, timeout) {
                self.active->0.motor
            } else {
                None
            },
        }
    }

    /// The frame being sent still has bytes to send.
    pub open spec fn valid(self) -> bool {
        self.active is Some ==> self.active->0.sent < self.active->0.wire.len()
    }
}

impl Frame {
    spec fn wf(self) -> bool {
        self.sent < self.len <= MAX_FRAME
    }

    spec fn model(self) -> FrameModel {
        FrameModel {
            wire: self.bytes@.subrange(0, self.len as int),
            sent: self.sent as nat,
            motor: self.motor,
            handoff: self.handoff,
            clears_motor: self.clears_motor,
            queued_at: self.queued_at,
        }
    }
}

impl View for TxState {
    type V = TxModel;

    closed spec fn view(&self) -> TxModel {
        TxModel {
            active: match self.active {
                Some(frame) => Some(frame.model()),
                None => None,
            },
            pending_motor: self.pending_motor,
            last_motor_on_wire: self.last_motor_on_wire,
        }
    }
}

impl TxState {
    /// The frame being sent fits its buffer and has bytes left.
    pub closed spec fn wf(&self) -> bool {
        self.active is Some ==> self.active->0.wf()
    }

    /// A frame that is being sent has bytes left.
    pub proof fn lemma_valid(&self)
        requires
            self.wf(),
        ensures
            self@.valid(),
    {
    }

    pub fn new() -> (tx: Self)
        ensures
            tx.wf(),
            tx@ == TxModel::empty(),
    {
        TxState { active: None, pending_motor: None, last_motor_on_wire: (0, 0) }
    }

    /// Let `request` wait in place of whatever waited before.
    pub fn replace_motor_request(&mut self, request: MotorRequest) -> (discarded: MotorDiscards)
        requires
            old(self).wf(),
        ensures
            final(self).wf(),
            final(self)@ == old(self)@.with_pending(request),
            discarded == (MotorDiscards { pending: old(self)@.pending_motor, frame: None }),
    {
        let pending = self.pending_motor;
        self.pending_motor = Some(request);
        MotorDiscards { pending, frame: None }
    }

    /// Frame the waiting pair, or a zero crossing before it. `None`, with the
    /// pair still waiting, while another frame is being sent.
    pub fn start_pending_motor(&mut self, sequence: u8) -> (started: Option<MotorFrame>)
        requires
            old(self).wf(),
        ensures
            final(self).wf(),
            started == old(self)@.next_motor_frame(sequence),
            final(self)@ == old(self)@.motor_started(sequence),
    {
        let (request, intermediate_zero): (MotorRequest, bool) = match self.next_motor() {
            Some(next) => next,
            None => {
                return None;
            },
        };
        let msg = Msg::MotorSetpoint { seq: sequence, left: request.left, right: request.right };
        if !self.start(&msg, request.queued_at) {
            return None;
        }
        let motor = MotorFrame { request, sequence, intermediate_zero };
        match self.active {
            Some(frame) => {
                self.active = Some(Frame { motor: Some(motor), ..frame });
            },
            None => {},
        }
        if !intermediate_zero {
            self.pending_motor = None;
        }
        Some(motor)
    }

    /// Take the next byte, which the transport has accepted, and report the
    /// motor frame that it completes.
    pub fn next_byte_with_motor_completion(&mut self) -> (result: Option<
        (u8, Option<MotorFrame>),
    >)
        requires
            old(self).wf(),
        ensures
            final(self).wf(),
            final(self)@ == old(self)@.advanced(),
            result == match old(self)@.next() {
                None => None,
                Some(byte) => Some(
                    (
                        byte,
                        match old(self)@.next_completion() {
                            Some(FrameCompletion::Motor(motor)) => Some(motor),
                            _ => None,
                        },
                    ),
                ),
            },
    {
        match self.next_byte_with_completion() {
            None => None,
            Some((byte, Some(FrameCompletion::Motor(motor)))) => Some((byte, Some(motor))),
            Some((byte, _)) => Some((byte, None)),
        }
    }

    /// Take the next byte, which the transport has accepted, and report the
    /// motor or handoff frame that it completes. Completion means that the
    /// local UART has all bytes, not that the peer has them.
    pub fn next_byte_with_completion(&mut self) -> (result: Option<
        (u8, Option<FrameCompletion>),
    >)
        requires
            old(self).wf(),
        ensures
            final(self).wf(),
            final(self)@ == old(self)@.advanced(),
            result == match old(self)@.next() {
                None => None,
                Some(byte) => Some((byte, old(self)@.next_completion())),
            },
    {
        match self.active {
            None => None,
            Some(frame) => {
                let byte: u8 = frame.bytes[frame.sent as usize];
                if frame.sent + 1 == frame.len {
                    match frame.motor {
                        Some(motor) => {
                            self.last_motor_on_wire = (motor.request.left, motor.request.right);
                        },
                        None => {
                            if frame.clears_motor {
                                self.last_motor_on_wire = (0, 0);
                            }
                        },
                    }
                    self.active = None;
                    let completion = match (frame.motor, frame.handoff) {
                        (Some(motor), _) => Some(FrameCompletion::Motor(motor)),
                        (None, Some(handoff)) => Some(FrameCompletion::Handoff(handoff)),
                        (None, None) => None,
                    };
                    Some((byte, completion))
                } else {
                    self.active = Some(Frame { sent: frame.sent + 1, ..frame });
                    Some((byte, None))
                }
            },
        }
    }

    pub fn pending_motor(&self) -> (pending: Option<MotorRequest>)
        ensures
            pending == self@.pending_motor,
    {
        self.pending_motor
    }

    /// The motor frame being sent.
    pub fn active_motor(&self) -> (motor: Option<MotorFrame>)
        ensures
            motor == match self@.active {
                Some(frame) => frame.motor,
                None => None,
            },
    {
        match self.active {
            Some(frame) => frame.motor,
            None => None,
        }
    }

    /// Begin to send `msg`; `false` while another frame is being sent.
    pub fn start(&mut self, msg: &Msg, now: u64) -> (started: bool)
        requires
            old(self).wf(),
        ensures
            final(self).wf(),
            started == (old(self)@.active is None),
            final(self)@ == if started {
                TxModel { active: Some(fresh_frame(*msg, now)), ..old(self)@ }
            } else {
                old(self)@
            },
    {
        if self.active.is_some() {
            return false;
        }
        let mut bytes = [0u8; MAX_FRAME];
        proof {
            lemma_payload_len(*msg);
        }
        let len: usize = match encode(msg, &mut bytes) {
            Ok(len) => len,
            Err(_) => {
                return false;
            },
        };
        let motor = match *msg {
            Msg::MotorSetpoint { seq, left, right } => Some(
                MotorFrame {
                    request: MotorRequest { left, right, queued_at: now, origin: None },
                    sequence: seq,
                    intermediate_zero: false,
                },
            ),
            _ => None,
        };
        let clears_motor = match *msg {
            Msg::Estop { assert: asserted } => asserted,
            Msg::SafeBarrier { .. } => true,
            Msg::SessionOffer { .. } => true,
            _ => false,
        };
        self.active = Some(
            Frame {
                bytes,
                len: len as u8,
                sent: 0,
                motor,
                handoff: None,
                clears_motor,
                queued_at: now,
            },
        );
        assert(bytes@.subrange(0, len as int) =~= wire(*msg));
        true
    }

    /// Begin to send a handoff message; `false` while another frame is being
    /// sent.
    pub fn start_handoff(&mut self, frame: HandoffFrame, now: u64) -> (started: bool)
        requires
            old(self).wf(),
        ensures
            final(self).wf(),
            started == (old(self)@.active is None),
            final(self)@ == if started {
                TxModel {
                    active: Some(
                        FrameModel { handoff: Some(frame), ..fresh_frame(frame.message, now) },
                    ),
                    ..old(self)@
                }
            } else {
                old(self)@
            },
    {
        if !self.start(&frame.message, now) {
            return false;
        }
        match self.active {
            Some(active) => {
                self.active = Some(Frame { handoff: Some(frame), ..active });
            },
            None => {},
        }
        true
    }

    /// Look at the next byte without taking it.
    pub fn peek_byte(&self) -> (byte: Option<u8>)
        requires
            self.wf(),
        ensures
            byte == self@.next(),
    {
        match self.active {
            None => None,
            Some(frame) => Some(frame.bytes[frame.sent as usize]),
        }
    }

    pub fn next_byte(&mut self) -> (byte: Option<u8>)
        requires
            old(self).wf(),
        ensures
            final(self).wf(),
            final(self)@ == old(self)@.advanced(),
            byte == old(self)@.next(),
    {
        match self.next_byte_with_completion() {
            Some((byte, _)) => Some(byte),
            None => None,
        }
    }

    /// Drop a frame that has not put a byte on the wire.
    pub fn cancel_unsent(&mut self) -> (discarded: MotorDiscards)
        requires
            old(self).wf(),
        ensures
            final(self).wf(),
            final(self)@ == old(self)@.without_unsent(),
            discarded == (MotorDiscards { pending: None, frame: old(self)@.unsent_discard() }),
    {
        let unsent = match self.active {
            Some(frame) => frame.sent == 0,
            None => false,
        };
        if unsent {
            let frame = self.active_motor();
            self.active = None;
            MotorDiscards { pending: None, frame }
        } else {
            MotorDiscards { pending: None, frame: None }
        }
    }

    pub fn is_idle(&self) -> (idle: bool)
        ensures
            idle == (self@.active is None),
    {
        self.active.is_none()
    }

    /// Let an untagged pair wait in place of whatever waited before.
    pub fn replace_motor(&mut self, left: i16, right: i16, now: u64)
        requires
            old(self).wf(),
        ensures
            final(self).wf(),
            final(self)@ == old(self)@.with_pending(
                MotorRequest { left, right, queued_at: now, origin: None },
            ),
    {
        self.replace_motor_request(MotorRequest { left, right, queued_at: now, origin: None });
    }

    /// Put an untagged safe pair ahead of motion that has not started.
    pub fn prioritize_motor(&mut self, left: i16, right: i16, now: u64)
        requires
            old(self).wf(),
        ensures
            final(self).wf(),
            final(self)@ == old(self)@.without_unsent_motor().with_pending(
                MotorRequest { left, right, queued_at: now, origin: None },
            ),
    {
        self.prioritize_motor_request(MotorRequest { left, right, queued_at: now, origin: None });
    }

    /// Put `request` ahead of motion that has not started. Frames other than
    /// motor frames, and a frame that is partly sent, stay.
    pub fn prioritize_motor_request(&mut self, request: MotorRequest) -> (discarded: MotorDiscards)
        requires
            old(self).wf(),
        ensures
            final(self).wf(),
            final(self)@ == old(self)@.without_unsent_motor().with_pending(request),
            discarded == (MotorDiscards {
                pending: old(self)@.pending_motor,
                frame: old(self)@.unsent_motor_discard(),
            }),
    {
        let mut discarded = MotorDiscards::default();
        let unsent_motor = match self.active {
            Some(frame) => frame.motor.is_some() && frame.sent == 0,
            None => false,
        };
        if unsent_motor {
            discarded = self.cancel_unsent();
        }
        discarded.pending = self.pending_motor;
        self.pending_motor = Some(request);
        discarded
    }

    /// Drop the waiting pair.
    pub fn clear_motor(&mut self) -> (discarded: MotorDiscards)
        requires
            old(self).wf(),
        ensures
            final(self).wf(),
            final(self)@ == (TxModel { pending_motor: None, ..old(self)@ }),
            discarded == (MotorDiscards { pending: old(self)@.pending_motor, frame: None }),
    {
        let pending = self.pending_motor;
        self.pending_motor = None;
        MotorDiscards { pending, frame: None }
    }

    /// Take the next untagged pair out; a tagged one stays. A zero crossing
    /// leaves its target waiting.
    pub fn take_motor(&mut self) -> (taken: Option<(i16, i16, u64)>)
        requires
            old(self).wf(),
        ensures
            final(self).wf(),
            ({
                let before = old(self)@;
                match before.next_motor() {
                    Some((request, intermediate)) if request.origin is None => {
                        &&& taken == Some((request.left, request.right, request.queued_at))
                        &&& final(self)@ == (TxModel {
                            pending_motor: if intermediate {
                                before.pending_motor
                            } else {
                                None
                            },
                            ..before
                        })
                    },
                    _ => taken is None && final(self)@ == before,
                }
            }),
    {
        let (request, intermediate): (MotorRequest, bool) = match self.next_motor() {
            Some(next) => next,
            None => {
                return None;
            },
        };
        if request.origin.is_some() {
            return None;
        }
        if !intermediate {
            self.pending_motor = None;
        }
        Some((request.left, request.right, request.queued_at))
    }

    fn next_motor(&self) -> (next: Option<(MotorRequest, bool)>)
        ensures
            next == self@.next_motor(),
    {
        match self.pending_motor {
            None => None,
            Some(request) => {
                if turns_back(self.last_motor_on_wire.0, request.left) || turns_back(
                    self.last_motor_on_wire.1,
                    request.right,
                ) {
                    Some((MotorRequest { left: 0, right: 0, ..request }, true))
                } else {
                    Some((request, false))
                }
            },
        }
    }

    /// Drop motor work that has put no byte on the wire within `timeout`.
    pub fn discard_expired_motor(&mut self, now: u64, timeout: u64) -> (discarded: MotorDiscards)
        requires
            old(self).wf(),
        ensures
            final(self).wf(),
            final(self)@ == old(self)@.without_expired(now, timeout),
            discarded == old(self)@.expired_discard(now, timeout),
    {
        let mut discarded = MotorDiscards::default();
        let pending_expired = match self.pending_motor {
            Some(request) => now.saturating_sub(request.queued_at) >= timeout,
            None => false,
        };
        if pending_expired {
            discarded.pending = self.pending_motor;
            self.pending_motor = None;
        }
        let frame_expired = match self.active {
            Some(frame) => frame.motor.is_some() && frame.sent == 0 && now.saturating_sub(
                frame.queued_at,
            ) >= timeout,
            None => false,
        };
        if frame_expired {
            discarded.frame = self.cancel_unsent().frame;
        }
        discarded
    }
}

impl Default for TxState {
    fn default() -> (tx: Self)
        ensures
            tx.wf(),
            tx@ == TxModel::empty(),
    {
        Self::new()
    }
}

fn turns_back(current: i16, target: i16) -> (turns: bool)
    ensures
        turns == reverses(current, target),
{
    (current < 0 && target > 0) || (current > 0 && target < 0)
}

/// The product of two duties is negative exactly if they have opposite signs.
proof fn lemma_opposite_signs(a: i16, b: i16)
    ensures
        a * b < 0 <==> (a < 0 && b > 0) || (a > 0 && b < 0),
{
    assert(a * b < 0 <==> (a < 0 && b > 0) || (a > 0 && b < 0)) by (nonlinear_arith);
}

/// Law: a pair framed from the queue never turns a wheel straight from one
/// direction into the other: the duty on the wire and the next one never have
/// opposite signs.
pub proof fn law_zero_between_directions(tx: TxModel, sequence: u8)
    requires
        tx.next_motor_frame(sequence) is Some,
    ensures
        ({
            let request = tx.next_motor_frame(sequence)->0.request;
            &&& !reverses(tx.last_motor_on_wire.0, request.left)
            &&& !reverses(tx.last_motor_on_wire.1, request.right)
            &&& tx.last_motor_on_wire.0 * request.left >= 0
            &&& tx.last_motor_on_wire.1 * request.right >= 0
        }),
{
    let waiting = tx.pending_motor->0;
    lemma_opposite_signs(tx.last_motor_on_wire.0, waiting.left);
    lemma_opposite_signs(tx.last_motor_on_wire.1, waiting.right);
    lemma_opposite_signs(tx.last_motor_on_wire.0, 0);
    lemma_opposite_signs(tx.last_motor_on_wire.1, 0);
}

/// Law: on an idle line the waiting pair is framed as it is, and no longer waits,
/// unless a wheel would turn straight from one direction into the other. Only
/// then is a zero pair of the same age and origin framed in its place, and the
/// pair stays waiting. The frame is the wire form of what it reports.
pub proof fn law_waiting_pair_is_framed(tx: TxModel, sequence: u8)
    requires
        tx.active is None,
        tx.pending_motor is Some,
    ensures
        ({
            let waiting = tx.pending_motor->0;
            let turns = tx.last_motor_on_wire.0 * waiting.left < 0 || tx.last_motor_on_wire.1
                * waiting.right < 0;
            let frame = tx.next_motor_frame(sequence)->0;
            let after = tx.motor_started(sequence);
            let sent = after.active->0;
            &&& tx.next_motor_frame(sequence) is Some
            &&& frame.sequence == sequence
            &&& frame.intermediate_zero == turns
            &&& frame.request.queued_at == waiting.queued_at
            &&& frame.request.origin == waiting.origin
            &&& frame.request.left == if turns {
                0
            } else {
                waiting.left as int
            }
            &&& frame.request.right == if turns {
                0
            } else {
                waiting.right as int
            }
            &&& tx.next_motor() == Some((frame.request, turns))
            &&& after.pending_motor == if turns {
                Some(waiting)
            } else {
                None
            }
            &&& after.last_motor_on_wire == tx.last_motor_on_wire
            &&& after.active is Some
            &&& sent.motor == Some(frame)
            &&& sent.sent == 0
            &&& sent.queued_at == waiting.queued_at
            &&& sent.wire == wire(
                Msg::MotorSetpoint {
                    seq: sequence,
                    left: frame.request.left,
                    right: frame.request.right,
                },
            )
        }),
{
    let waiting = tx.pending_motor->0;
    lemma_opposite_signs(tx.last_motor_on_wire.0, waiting.left);
    lemma_opposite_signs(tx.last_motor_on_wire.1, waiting.right);
}

/// Law: no pair is framed while another frame is being sent, nor without a pair
/// that waits; neither changes anything.
pub proof fn law_nothing_is_framed(tx: TxModel, sequence: u8)
    requires
        tx.active is Some || tx.pending_motor is None,
    ensures
        tx.next_motor_frame(sequence) is None,
        tx.motor_started(sequence) == tx,
        tx.pending_motor is None ==> tx.next_motor() is None,
{
}

/// Law: once a message has left completely, the duties on the wire are those of a
/// motor pair, zero after a stop, a barrier or an offer, and as before after any
/// other message. Before its last byte they are as before.
pub proof fn law_duties_on_wire(tx: TxModel, msg: Msg, now: u64, count: nat)
    requires
        tx.active is None,
        count <= wire(msg).len(),
    ensures
        ({
            let started = TxModel { active: Some(fresh_frame(msg, now)), ..tx };
            let duties = started.advanced_by(count).last_motor_on_wire;
            if count < wire(msg).len() {
                duties == tx.last_motor_on_wire
            } else {
                match msg {
                    Msg::MotorSetpoint { seq, left, right } => duties == (left, right),
                    Msg::Estop { assert: asserted } => duties == if asserted {
                        (0i16, 0i16)
                    } else {
                        tx.last_motor_on_wire
                    },
                    Msg::SafeBarrier { session, correlation, sequence } => duties == (0i16, 0i16),
                    Msg::SessionOffer { session } => duties == (0i16, 0i16),
                    _ => duties == tx.last_motor_on_wire,
                }
            }
        }),
{
    lemma_payload_len(msg);
    law_frame_leaves_whole(TxModel { active: Some(fresh_frame(msg, now)), ..tx }, count);
}

/// Law: with its last byte, and not before, a frame is reported: a motor pair with
/// its duties, a handoff message as it was given, and nothing for any other.
pub proof fn law_completion_is_reported(tx: TxModel)
    requires
        tx.active is Some,
        tx.valid(),
    ensures
        ({
            let frame = tx.active->0;
            let last = frame.sent + 1 == frame.wire.len();
            &&& tx.next() == Some(frame.wire[frame.sent as int])
            &&& !last ==> tx.next_completion() is None
            &&& last && frame.motor is Some ==> tx.next_completion() == Some(
                FrameCompletion::Motor(frame.motor->0),
            )
            &&& last && frame.motor is None && frame.handoff is Some ==> tx.next_completion()
                == Some(FrameCompletion::Handoff(frame.handoff->0))
            &&& last && frame.motor is None && frame.handoff is None
                ==> tx.next_completion() is None
            &&& last <==> tx.advanced().active is None
        }),
{
}

/// Law: a setpoint that is sent directly is reported with its own duties, number
/// and time; no other message counts as a motor pair.
pub proof fn law_setpoint_is_motor(msg: Msg, now: u64)
    ensures
        match (msg, fresh_frame(msg, now).motor) {
            (Msg::MotorSetpoint { seq, left, right }, Some(motor)) => {
                &&& motor.request.left == left && motor.request.right == right
                &&& motor.request.queued_at == now && motor.request.origin is None
                &&& motor.sequence == seq && !motor.intermediate_zero
            },
            (Msg::MotorSetpoint { .. }, None) => false,
            (_, motor) => motor is None,
        },
        fresh_frame(msg, now).queued_at == now,
        fresh_frame(msg, now).wire == wire(msg),
        fresh_frame(msg, now).sent == 0,
        fresh_frame(msg, now).handoff is None,
{
}

/// Law: motor work that has put no byte on the wire is dropped exactly once it is
/// as old as the limit; a clock that went back makes nothing old. What is dropped
/// is reported, and nothing else.
pub proof fn law_old_motor_work_is_dropped(tx: TxModel, now: u64, timeout: u64)
    requires
        timeout > 0,
    ensures
        ({
            let after = tx.without_expired(now, timeout);
            let gone = tx.expired_discard(now, timeout);
            &&& tx.pending_motor is Some ==> {
                let old = tx.pending_motor->0.queued_at + timeout <= now;
                &&& after.pending_motor == if old {
                    None
                } else {
                    tx.pending_motor
                }
                &&& gone.pending == if old {
                    tx.pending_motor
                } else {
                    None
                }
            }
            &&& tx.pending_motor is None ==> after.pending_motor is None && gone.pending is None
            &&& tx.active is Some ==> {
                let frame = tx.active->0;
                let old = frame.motor is Some && frame.sent == 0 && frame.queued_at + timeout
                    <= now;
                &&& after.active == if old {
                    None
                } else {
                    tx.active
                }
                &&& gone.frame == if old {
                    frame.motor
                } else {
                    None
                }
            }
            &&& tx.active is None ==> after.active is None && gone.frame is None
            &&& after.last_motor_on_wire == tx.last_motor_on_wire
        }),
{
}

/// Law: a frame that has put no byte on the wire gives way to a stop, and if it is
/// a motor frame, to a safe pair. A motor frame that gave way is reported.
pub proof fn law_unsent_frame_gives_way(tx: TxModel)
    requires
        tx.active is Some,
        tx.active->0.sent == 0,
    ensures
        tx.without_unsent() == (TxModel { active: None, ..tx }),
        tx.unsent_discard() == tx.active->0.motor,
        tx.active->0.motor is Some ==> {
            &&& tx.without_unsent_motor() == (TxModel { active: None, ..tx })
            &&& tx.unsent_motor_discard() == tx.active->0.motor
        },
        tx.active->0.motor is None ==> tx.unsent_motor_discard() is None,
{
}

/// Law: an inserted zero crossing keeps its target waiting, and once the
/// crossing has left the wire the target itself is next.
pub proof fn law_target_follows_zero(tx: TxModel, first: u8, second: u8)
    requires
        tx.next_motor_frame(first) is Some,
        tx.next_motor_frame(first)->0.intermediate_zero,
    ensures
        ({
            let framed = tx.motor_started(first);
            let sent = framed.advanced_by(framed.active->0.wire.len());
            &&& sent.next_motor_frame(second) == Some(
                MotorFrame {
                    request: tx.pending_motor->0,
                    sequence: second,
                    intermediate_zero: false,
                },
            )
        }),
{
    let framed = tx.motor_started(first);
    let msg = Msg::MotorSetpoint { seq: first, left: 0, right: 0 };
    lemma_payload_len(msg);
    law_frame_leaves_whole(framed, framed.active->0.wire.len());
}

/// Law: the accepted bytes of a frame are its wire bytes in order, and after
/// the last one the line is idle.
pub proof fn law_frame_leaves_whole(tx: TxModel, count: nat)
    requires
        tx.active is Some,
        tx.active->0.sent == 0,
        0 < tx.active->0.wire.len(),
        count <= tx.active->0.wire.len(),
    ensures
        count < tx.active->0.wire.len() ==> tx.advanced_by(count) == (TxModel {
            active: Some(FrameModel { sent: count, ..tx.active->0 }),
            ..tx
        }),
        count < tx.active->0.wire.len() ==> tx.advanced_by(count).next() == Some(
            tx.active->0.wire[count as int],
        ),
        count == tx.active->0.wire.len() ==> {
            &&& tx.advanced_by(count).active is None
            &&& tx.advanced_by(count).pending_motor == tx.pending_motor
            &&& tx.advanced_by(count).last_motor_on_wire == match tx.active->0.motor {
                Some(motor) => (motor.request.left, motor.request.right),
                None => if tx.active->0.clears_motor {
                    (0i16, 0i16)
                } else {
                    tx.last_motor_on_wire
                },
            }
        },
    decreases count,
{
    if count > 0 {
        law_frame_leaves_whole(tx, (count - 1) as nat);
    }
}

/// Law: a partly sent frame survives every cancellation, expiry and safe pair.
pub proof fn law_partial_frame_finishes(tx: TxModel, request: MotorRequest, now: u64, timeout: u64)
    requires
        tx.active is Some,
        tx.active->0.sent > 0,
    ensures
        tx.without_unsent().active == tx.active,
        tx.without_unsent_motor().with_pending(request).active == tx.active,
        tx.without_expired(now, timeout).active == tx.active,
        tx.next_motor_frame(0) is None,
{
}

/// Law: a safe pair and the age limit never remove a frame that is no motor
/// frame, such as a queued emergency stop.
pub proof fn law_stop_is_not_superseded(tx: TxModel, request: MotorRequest, now: u64, timeout: u64)
    requires
        tx.active is Some,
        tx.active->0.motor is None,
    ensures
        tx.without_unsent_motor().with_pending(request).active == tx.active,
        tx.without_expired(now, timeout).active == tx.active,
{
}

} // verus!
