//! Transport of the control link.
//!
//! One poll pass takes bytes from the UART, decodes them, decides on liveness,
//! heartbeat and fail-safe, and hands out bytes to send. The embedding program
//! moves the bytes and supplies the times: it calls [`ControlLink::begin_poll`],
//! [`ControlLink::on_rx`] while [`ControlLink::wants_rx`], then
//! [`ControlLink::decode_next`] until nothing is left, [`ControlLink::decide`],
//! and [`ControlLink::tx_accepted`] for every byte of [`ControlLink::next_tx`]
//! that the UART takes. What other parts of the kernel must do or record comes
//! back as [`LinkEffect`]s, in order.

use vstd::prelude::*;

use crate::link::codec::{decode_step, Decoder, Msg};
use crate::link::handoff::{Handoff, HandoffError, HandoffModel, Phase, Transmission};
use crate::link::motor::MotorSide;
use crate::link::ring::RingBuf;
use crate::link::session::{LinkAction, LinkSession, SessionModel};
use crate::link::tx::{
    fresh_frame, FrameCompletion, FrameModel, HandoffFrame, MotorDiscards, MotorFrame, MotorOrigin,
    MotorRequest, TxModel, TxState,
};

verus! {

/// Capacity of the receive queue.
pub const RING_BYTES: usize = 256;

/// Baud rate of the link; the controller uses the same.
pub const LINK_BAUD: u32 = 115_200;

/// Most bytes taken in one pass.
pub const RX_PER_POLL: usize = 64;

/// Most bytes sent in one pass.
pub const TX_PER_POLL: usize = 64;

/// Inbound silence after which the peer counts as dead, in nanoseconds. Shorter
/// than the peer's own timeout.
pub const LINK_TIMEOUT_NS: u64 = 80_000_000;

/// Heartbeat cadence while the link is alive, in nanoseconds.
pub const HEARTBEAT_PERIOD_NS: u64 = 20_000_000;

/// The PWM chip and channels that stand for the wheels.
pub const MOTOR_CHIP: u8 = 0;

pub const MOTOR_LEFT_CHANNEL: u8 = 1;

pub const MOTOR_RIGHT_CHANNEL: u8 = 2;

/// Identifiers of the range sensor among the sensor events.
pub const ULTRASONIC_DEVICE_ID: u32 = 0x5072_0000;

pub const ULTRASONIC_CHANNEL: u32 = 0;

/// The wheel that a PWM channel drives.
pub open spec fn wheel_of(chip: u8, channel: u8, reserved: bool) -> Option<MotorSide> {
    if reserved || chip != MOTOR_CHIP {
        None
    } else if channel == MOTOR_LEFT_CHANNEL {
        Some(MotorSide::Left)
    } else if channel == MOTOR_RIGHT_CHANNEL {
        Some(MotorSide::Right)
    } else {
        None
    }
}

/// The wheel that a PWM channel drives. A channel that is reserved for local
/// output drives none.
#[must_use]
pub fn motor_side(chip: u8, channel: u8, reserved: bool) -> (side: Option<MotorSide>)
    ensures
        side == wheel_of(chip, channel, reserved),
{
    if reserved || chip != MOTOR_CHIP {
        None
    } else if channel == MOTOR_LEFT_CHANNEL {
        Some(MotorSide::Left)
    } else if channel == MOTOR_RIGHT_CHANNEL {
        Some(MotorSide::Right)
    } else {
        None
    }
}

/// Whether motion is managed, and so bound to an established handoff.
#[derive(Debug, Clone, Copy, PartialEq, Eq, Structural)]
pub enum RuntimeMode {
    Legacy,
    Managed,
}

/// Emergency stop commands that are still to be sent.
#[derive(Debug, Clone, Copy, PartialEq, Eq, Structural)]
pub enum PendingEstop {
    Assert,
    Release,
    AssertThenRelease,
}

/// Why motor work was dropped.
#[derive(Debug, Clone, Copy, PartialEq, Eq, Structural)]
pub enum DiscardReason {
    /// Too old.
    Expired,
    /// Motion is not permitted.
    Inhibited,
    /// A safe pair took its place.
    SafePair,
    /// An emergency stop.
    Stop,
    /// A newer pair took its place.
    Superseded,
}

/// What one look at the UART gave.
#[derive(Debug, Clone, Copy, PartialEq, Eq, Structural)]
pub enum RxRead {
    Byte(u8),
    Empty,
    Fault,
}

/// What other parts of the kernel must do or record.
#[allow(inconsistent_fields)]
#[derive(Debug, Clone, Copy, PartialEq, Eq)]
pub enum LinkEffect {
    /// The last sensor sample counts no more.
    InvalidateSensor,
    /// Managed execution must stop.
    RequestStop,
    /// The handoff of this operation failed.
    RequestHandoffFailure(u64, HandoffError),
    /// A sensor sample arrived.
    PublishSensor { received_at: u64, echo_us: u16, flags: u8, estop_line: bool },
    /// Motor work was dropped.
    MotorDiscarded(MotorDiscards, DiscardReason),
    /// A message was shown to the handoff of this operation.
    HandoffReply {
        operation: Option<u64>,
        msg: Msg,
        observed: u64,
        result: Result<bool, HandoffError>,
    },
    /// A handoff message was framed.
    HandoffFramed(HandoffFrame),
    /// A handoff message was sent.
    HandoffCompleted { frame: HandoffFrame, observed: u64, result: Result<(), HandoffError> },
    /// A motor pair was framed.
    MotorStarted(MotorFrame),
    /// A motor pair was sent.
    MotorCompleted(MotorFrame),
}

/// What a pass found that must be acted on once the link is unlocked.
#[derive(Debug)]
pub struct PollOutcome {
    /// An emergency stop is called for.
    pub estop: bool,
    /// Numbered range readings, in microseconds of echo time.
    pub sensors: Vec<(u64, u16)>,
    /// Sequence numbers of the peer's heartbeats.
    pub heartbeats: Vec<u16>,
    /// Bytes or readings that were lost.
    pub overflow_count: usize,
    /// The link was lost.
    pub link_loss: bool,
}

/// One pass over the link.
#[derive(Debug)]
pub struct PollPass {
    /// Transport time of the pass.
    pub now: u64,
    /// Bytes taken so far.
    pub got: usize,
    /// No more bytes are to be taken.
    pub rx_done: bool,
    /// Bytes sent so far.
    pub sent: usize,
    pub out: PollOutcome,
    /// What others must do or record.
    pub effects: Vec<LinkEffect>,
}

/// The link transport. Its view is a [`LinkModel`].
pub struct ControlLink {
    mode: RuntimeMode,
    rx: RingBuf<RING_BYTES>,
    tx: TxState,
    dec: Decoder,
    rx_overflows: u32,
    session: LinkSession,
    motor_seq: u8,
    pending_estop: Option<PendingEstop>,
    link_loss_reported: bool,
    handoff: Handoff,
    next_sample_id: u64,
}

/// The link as a value.
#[verifier::ext_equal]
pub struct LinkModel {
    pub mode: RuntimeMode,
    /// Bytes received and not decoded yet.
    pub rx: Seq<u8>,
    pub tx: TxModel,
    /// The candidate frame of the decoder.
    pub candidate: Seq<u8>,
    pub rx_overflows: u32,
    pub session: SessionModel,
    pub motor_seq: u8,
    pub pending_estop: Option<PendingEstop>,
    pub link_loss_reported: bool,
    pub handoff: HandoffModel,
    pub next_sample_id: u64,
}

/// A pass as a value.
#[verifier::ext_equal]
pub struct PassModel {
    pub now: u64,
    pub got: nat,
    pub rx_done: bool,
    pub sent: nat,
    pub estop: bool,
    pub sensors: Seq<(u64, u16)>,
    pub heartbeats: Seq<u16>,
    pub overflow_count: nat,
    pub link_loss: bool,
    pub effects: Seq<LinkEffect>,
}

impl View for PollPass {
    type V = PassModel;

    open spec fn view(&self) -> PassModel {
        PassModel {
            now: self.now,
            got: self.got as nat,
            rx_done: self.rx_done,
            sent: self.sent as nat,
            estop: self.out.estop,
            sensors: self.out.sensors@,
            heartbeats: self.out.heartbeats@,
            overflow_count: self.out.overflow_count as nat,
            link_loss: self.out.link_loss,
            effects: self.effects@,
        }
    }
}

impl PassModel {
    pub open spec fn fresh(now: u64) -> PassModel {
        PassModel {
            now,
            got: 0,
            rx_done: false,
            sent: 0,
            estop: false,
            sensors: Seq::empty(),
            heartbeats: Seq::empty(),
            overflow_count: 0,
            link_loss: false,
            effects: Seq::empty(),
        }
    }

    pub open spec fn with_effect(self, effect: LinkEffect) -> PassModel {
        PassModel { effects: self.effects.push(effect), ..self }
    }

    pub open spec fn with_estop(self) -> PassModel {
        PassModel { estop: true, ..self }
    }

    /// Something in this pass calls for a stop of managed motion.
    pub open spec fn alarming(self) -> bool {
        self.estop || self.link_loss || self.overflow_count != 0
    }

    /// The outcome has a reading or heartbeat more; beyond the limit one was
    /// lost.
    pub open spec fn with_message(self, msg: Msg, sample_id: u64) -> PassModel {
        match msg {
            Msg::Sensor { ultrasonic_echo_us, estop_line, .. } => {
                let full = self.sensors.len() >= RX_PER_POLL;
                PassModel {
                    estop: self.estop || estop_line,
                    sensors: if full {
                        self.sensors
                    } else {
                        self.sensors.push((sample_id, ultrasonic_echo_us))
                    },
                    overflow_count: if full {
                        self.overflow_count + 1
                    } else {
                        self.overflow_count
                    },
                    ..self
                }
            },
            Msg::HeartbeatToPi { seq } => {
                let full = self.heartbeats.len() >= RX_PER_POLL;
                PassModel {
                    heartbeats: if full {
                        self.heartbeats
                    } else {
                        self.heartbeats.push(seq)
                    },
                    overflow_count: if full {
                        self.overflow_count + 1
                    } else {
                        self.overflow_count
                    },
                    ..self
                }
            },
            _ => self,
        }
    }
}

/// The commands still to be sent once `asserted` is asked for: an assertion is
/// never dropped, and a release waits behind it.
pub open spec fn estop_queued(pending: Option<PendingEstop>, asserted: bool) -> PendingEstop {
    match pending {
        None => if asserted {
            PendingEstop::Assert
        } else {
            PendingEstop::Release
        },
        Some(PendingEstop::Release) => if asserted {
            PendingEstop::Assert
        } else {
            PendingEstop::Release
        },
        Some(_) => if asserted {
            PendingEstop::Assert
        } else {
            PendingEstop::AssertThenRelease
        },
    }
}

/// The next command to send asserts.
pub open spec fn asserts_next(pending: PendingEstop) -> bool {
    pending != PendingEstop::Release
}

/// What is left once the next command is sent.
pub open spec fn after_next(pending: PendingEstop) -> Option<PendingEstop> {
    match pending {
        PendingEstop::AssertThenRelease => Some(PendingEstop::Release),
        _ => None,
    }
}

/// Link and pass together.
#[verifier::ext_equal]
pub struct Step {
    pub link: LinkModel,
    pub pass: PassModel,
}

impl LinkModel {
    pub open spec fn managed(self) -> bool {
        self.mode == RuntimeMode::Managed
    }

    pub open spec fn assert_pending(self) -> bool {
        match self.pending_estop {
            Some(pending) => asserts_next(pending),
            None => false,
        }
    }

    /// Motion may be queued: it is not managed, or its handoff is ready.
    pub open spec fn motion_permitted(self) -> bool {
        !self.managed() || self.handoff.phase == Phase::Ready
    }

    /// With a stop command queued. Asserting drops waiting motion and, if
    /// managed, the handoff.
    pub open spec fn estop_requested(self, asserted: bool) -> LinkModel {
        LinkModel {
            tx: if asserted {
                TxModel { pending_motor: None, ..self.tx }
            } else {
                self.tx
            },
            handoff: if asserted && self.managed() {
                self.handoff.disarmed()
            } else {
                self.handoff
            },
            pending_estop: Some(estop_queued(self.pending_estop, asserted)),
            ..self
        }
    }

    /// Motor work that asserting drops.
    pub open spec fn estop_discards(self) -> MotorDiscards {
        MotorDiscards { pending: self.tx.pending_motor, frame: None }
    }

    /// An unsent frame makes way for a pending assertion.
    pub open spec fn cleared_for_stop(self) -> LinkModel {
        if self.assert_pending() {
            LinkModel { tx: self.tx.without_unsent(), ..self }
        } else {
            self
        }
    }

    /// A pending stop command can be framed, or there is none.
    pub open spec fn estop_flushes(self) -> bool {
        self.pending_estop is None || self.tx.active is None
    }

    /// With the next stop command framed, if the line is idle.
    pub open spec fn estop_flushed(self, now: u64) -> LinkModel {
        match self.pending_estop {
            Some(pending) if self.tx.active is None => LinkModel {
                tx: TxModel {
                    active: Some(fresh_frame(Msg::Estop { assert: asserts_next(pending) }, now)),
                    ..self.tx
                },
                pending_estop: after_next(pending),
                ..self
            },
            _ => self,
        }
    }

    /// With the waiting motor pair framed, if the line is idle. Managed motion
    /// that is not permitted is dropped instead.
    pub open spec fn motor_flushed(self) -> LinkModel {
        let seq = ((self.motor_seq + 1) % 256) as u8;
        if !self.motion_permitted() {
            LinkModel { tx: TxModel { pending_motor: None, ..self.tx }, ..self }
        } else if self.tx.next_motor_frame(seq) is Some {
            LinkModel { tx: self.tx.motor_started(seq), motor_seq: seq, ..self }
        } else {
            self
        }
    }

    /// What flushing the motor pair records.
    pub open spec fn motor_flush_effect(self) -> Option<LinkEffect> {
        let seq = ((self.motor_seq + 1) % 256) as u8;
        if !self.motion_permitted() {
            Some(
                LinkEffect::MotorDiscarded(
                    MotorDiscards { pending: self.tx.pending_motor, frame: None },
                    DiscardReason::Inhibited,
                ),
            )
        } else if self.managed() && self.tx.next_motor_frame(seq) is Some {
            Some(LinkEffect::MotorStarted(self.tx.next_motor_frame(seq)->0))
        } else {
            None
        }
    }

    pub open spec fn sample_taken(self) -> LinkModel {
        LinkModel {
            next_sample_id: ((self.next_sample_id + 1) % 0x1_0000_0000_0000_0000) as u64,
            ..self
        }
    }
}

impl Step {
    pub open spec fn effect(self, effect: LinkEffect) -> Step {
        Step { pass: self.pass.with_effect(effect), ..self }
    }

    pub open spec fn estop(self) -> Step {
        Step { pass: self.pass.with_estop(), ..self }
    }

    /// Queue an assertion.
    pub open spec fn stop(self) -> Step {
        Step { link: self.link.estop_requested(true), ..self }.effect(
            LinkEffect::MotorDiscarded(self.link.estop_discards(), DiscardReason::Stop),
        )
    }

    /// Report a failed handoff and stop.
    pub open spec fn handoff_failed(self, operation: Option<u64>, error: HandoffError) -> Step {
        match operation {
            Some(id) => self.effect(LinkEffect::RequestHandoffFailure(id, error)).stop(),
            None => self.effect(LinkEffect::RequestStop).stop(),
        }
    }

    /// One look at the UART. A fault drops all that was received and stops.
    pub open spec fn received(self, read: RxRead) -> Step {
        match read {
            RxRead::Byte(byte) => if self.link.rx.len() < RING_BYTES {
                Step {
                    link: LinkModel { rx: self.link.rx.push(byte), ..self.link },
                    pass: PassModel { got: self.pass.got + 1, ..self.pass },
                }
            } else {
                Step {
                    link: LinkModel {
                        rx_overflows: ((self.link.rx_overflows + 1) % 0x1_0000_0000) as u32,
                        ..self.link
                    },
                    pass: PassModel {
                        got: self.pass.got + 1,
                        overflow_count: self.pass.overflow_count + 1,
                        ..self.pass
                    },
                }
            },
            RxRead::Empty => Step { pass: PassModel { rx_done: true, ..self.pass }, ..self },
            RxRead::Fault => {
                let emptied = Step {
                    link: LinkModel { rx: Seq::empty(), candidate: Seq::empty(), ..self.link },
                    pass: PassModel { rx_done: true, link_loss: true, estop: true, ..self.pass },
                };
                if self.link.managed() {
                    emptied.handoff_failed(
                        self.link.handoff.spec_operation(),
                        HandoffError::NotEstablished,
                    )
                } else {
                    emptied.stop()
                }
            },
        }
    }

    /// A decoded message is shown to the handoff.
    pub open spec fn handoff_replied(self, msg: Msg, observed: u64) -> Step {
        let operation = self.link.handoff.spec_operation();
        let result = self.link.handoff.reply_result(msg, observed);
        let shown = Step {
            link: LinkModel { handoff: self.link.handoff.replied(msg, observed), ..self.link },
            ..self
        }.effect(LinkEffect::HandoffReply { operation, msg, observed, result });
        match result {
            Err(error) => shown.handoff_failed(operation, error).estop(),
            Ok(_) => shown,
        }
    }

    /// A decoded message refreshes liveness and adds to the outcome.
    pub open spec fn message_taken(self, msg: Msg, sampled: u64) -> Step {
        let alive = Step {
            link: LinkModel {
                session: self.link.session.refreshed(self.pass.now),
                link_loss_reported: false,
                ..self.link
            },
            ..self
        };
        let published = match msg {
            Msg::Sensor { ultrasonic_echo_us, estop_line, flags } if self.link.managed() => {
                alive.effect(
                    LinkEffect::PublishSensor {
                        received_at: sampled,
                        echo_us: ultrasonic_echo_us,
                        flags,
                        estop_line,
                    },
                )
            },
            _ => alive,
        };
        Step {
            link: if msg is Sensor && published.pass.sensors.len() < RX_PER_POLL {
                published.link.sample_taken()
            } else {
                published.link
            },
            pass: published.pass.with_message(msg, published.link.next_sample_id),
        }
    }

    /// The oldest received byte is decoded.
    pub open spec fn decoded(self, observed: u64, sampled: u64) -> Step {
        let (candidate, outcome) = decode_step(self.link.candidate, self.link.rx[0]);
        let pushed = Step {
            link: LinkModel { rx: self.link.rx.drop_first(), candidate, ..self.link },
            ..self
        };
        match outcome {
            None => pushed,
            Some(Err(_)) => if self.link.managed() {
                pushed.effect(LinkEffect::InvalidateSensor).effect(
                    LinkEffect::RequestStop,
                ).stop().estop()
            } else {
                pushed
            },
            Some(Ok(msg)) => if self.link.managed() {
                pushed.handoff_replied(msg, observed).message_taken(msg, sampled)
            } else {
                pushed.message_taken(msg, sampled)
            },
        }
    }

    /// The session ticks; a dead link is stopped and, once, reported.
    pub open spec fn ticked(self) -> Step {
        let now = self.pass.now;
        let action = self.link.session.tick_action(now);
        let ticked = Step {
            link: LinkModel { session: self.link.session.ticked(now), ..self.link },
            ..self
        };
        if action == LinkAction::SafeStop {
            let reported = Step {
                link: LinkModel { link_loss_reported: true, ..ticked.link },
                pass: PassModel {
                    link_loss: ticked.pass.link_loss || !ticked.link.link_loss_reported,
                    ..ticked.pass
                },
            };
            let failed = match self.link.handoff.spec_operation() {
                Some(id) if self.link.managed() => reported.effect(
                    LinkEffect::RequestHandoffFailure(id, HandoffError::NotEstablished),
                ),
                _ => reported,
            };
            failed.stop()
        } else {
            ticked
        }
    }

    /// The handoff looks at the clock, and anything alarming stops managed
    /// motion.
    pub open spec fn handoff_checked(self, checked_at: u64) -> Step {
        if !self.link.managed() {
            self
        } else {
            let operation = self.link.handoff.spec_operation();
            let looked = Step {
                link: LinkModel { handoff: self.link.handoff.checked(checked_at), ..self.link },
                ..self
            };
            let checked = match self.link.handoff.check_error(checked_at) {
                Some(error) => looked.handoff_failed(operation, error).estop(),
                None => looked,
            };
            if checked.pass.alarming() {
                checked.effect(LinkEffect::InvalidateSensor).effect(LinkEffect::RequestStop).stop()
            } else {
                checked
            }
        }
    }

    /// Old motor work is dropped, and a frame in the way of a stop.
    pub open spec fn pruned(self) -> Step {
        let aged = Step {
            link: LinkModel {
                tx: self.link.tx.without_expired(self.pass.now, LINK_TIMEOUT_NS),
                ..self.link
            },
            ..self
        }.effect(
            LinkEffect::MotorDiscarded(
                self.link.tx.expired_discard(self.pass.now, LINK_TIMEOUT_NS),
                DiscardReason::Expired,
            ),
        );
        if aged.link.assert_pending() {
            Step { link: aged.link.cleared_for_stop(), ..aged }.effect(
                LinkEffect::MotorDiscarded(
                    MotorDiscards { pending: None, frame: aged.link.tx.unsent_discard() },
                    DiscardReason::Stop,
                ),
            )
        } else {
            aged
        }
    }

    /// A stop command is framed. If that was the one that a dead link asked
    /// for, the session knows.
    pub open spec fn stop_framed(self, safe_stop: bool) -> Step {
        let flushed = self.link.estop_flushed(self.pass.now);
        Step {
            link: if safe_stop && !flushed.assert_pending() {
                LinkModel {
                    session: SessionModel { estop_done: true, ..flushed.session },
                    ..flushed
                }
            } else {
                flushed
            },
            ..self
        }
    }

    /// The handoff's message is framed, if the line is idle.
    pub open spec fn handoff_framed(self) -> Step {
        match self.link.handoff.enqueued_frame(self.link.tx) {
            Some(frame) if self.link.managed() => Step {
                link: LinkModel {
                    handoff: self.link.handoff.with_transmission(Transmission::Started),
                    tx: TxModel {
                        active: Some(
                            FrameModel {
                                handoff: Some(frame),
                                ..fresh_frame(frame.message, self.pass.now)
                            },
                        ),
                        ..self.link.tx
                    },
                    ..self.link
                },
                ..self
            }.effect(LinkEffect::HandoffFramed(frame)),
            _ => self,
        }
    }

    /// The motor pair is framed, if the line is idle.
    pub open spec fn motor_framed(self) -> Step {
        if self.link.tx.active is None {
            let flushed = Step { link: self.link.motor_flushed(), ..self };
            match self.link.motor_flush_effect() {
                Some(effect) => flushed.effect(effect),
                None => flushed,
            }
        } else {
            self
        }
    }

    /// A due heartbeat is framed, if the line is idle.
    pub open spec fn heartbeat_framed(self, action: LinkAction) -> Step {
        match action {
            LinkAction::Heartbeat(seq) if self.link.tx.active is None => Step {
                link: LinkModel {
                    tx: TxModel {
                        active: Some(
                            fresh_frame(Msg::HeartbeatToShrike { seq }, self.pass.now),
                        ),
                        ..self.link.tx
                    },
                    ..self.link
                },
                ..self
            },
            _ => self,
        }
    }

    /// The decisions of a pass, in order of precedence: stop, handoff, motor,
    /// heartbeat. While a stop cannot be framed nothing else is.
    pub open spec fn decided(self, checked_at: u64) -> Step {
        let action = self.link.session.tick_action(self.pass.now);
        let pruned = self.ticked().handoff_checked(checked_at).pruned();
        let stopped = pruned.stop_framed(action == LinkAction::SafeStop);
        if pruned.link.estop_flushes() {
            stopped.handoff_framed().motor_framed().heartbeat_framed(action)
        } else {
            stopped
        }
    }

    /// The UART took the next byte.
    pub open spec fn sent(self, observed: u64) -> Step {
        let completion = self.link.tx.next_completion();
        let advanced = Step {
            link: LinkModel { tx: self.link.tx.advanced(), ..self.link },
            pass: PassModel { sent: self.pass.sent + 1, ..self.pass },
        };
        if self.link.tx.active is None {
            self
        } else if !self.link.managed() {
            advanced
        } else {
            match completion {
                None => advanced,
                Some(FrameCompletion::Motor(frame)) => advanced.effect(
                    LinkEffect::MotorCompleted(frame),
                ),
                Some(FrameCompletion::Handoff(frame)) => if self.link.handoff.spec_operation()
                    == frame.operation && self.link.handoff.spec_started_frame() == Some(
                    frame.message,
                ) {
                    let result = self.link.handoff.sent_result(observed);
                    let reported = Step {
                        link: LinkModel {
                            handoff: self.link.handoff.after_sent(observed),
                            ..advanced.link
                        },
                        ..advanced
                    }.effect(LinkEffect::HandoffCompleted { frame, observed, result });
                    match result {
                        Err(error) => reported.handoff_failed(frame.operation, error).estop(),
                        Ok(()) => reported,
                    }
                } else {
                    advanced.effect(
                        LinkEffect::HandoffCompleted {
                            frame,
                            observed,
                            result: Err(HandoffError::Stale),
                        },
                    )
                },
            }
        }
    }
}

impl View for ControlLink {
    type V = LinkModel;

    closed spec fn view(&self) -> LinkModel {
        LinkModel {
            mode: self.mode,
            rx: self.rx@,
            tx: self.tx@,
            candidate: self.dec@,
            rx_overflows: self.rx_overflows,
            session: self.session@,
            motor_seq: self.motor_seq,
            pending_estop: self.pending_estop,
            link_loss_reported: self.link_loss_reported,
            handoff: self.handoff@,
            next_sample_id: self.next_sample_id,
        }
    }
}

impl PollPass {
    fn effect(&mut self, effect: LinkEffect)
        ensures
            final(self)@ == old(self)@.with_effect(effect),
    {
        self.effects.push(effect);
    }

    fn estop(&mut self)
        ensures
            final(self)@ == old(self)@.with_estop(),
    {
        self.out.estop = true;
    }

    fn alarming(&self) -> (alarming: bool)
        ensures
            alarming == self@.alarming(),
    {
        self.out.estop || self.out.link_loss || self.out.overflow_count != 0
    }
}

impl ControlLink {
    /// All parts are well formed.
    pub closed spec fn wf(&self) -> bool {
        self.rx.wf() && self.tx.wf() && self.dec.wf()
    }

    pub open spec fn step(&self, pass: &PollPass) -> Step {
        Step { link: self@, pass: pass@ }
    }

    /// A link that has seen no traffic.
    pub fn new(mode: RuntimeMode) -> (link: Self)
        ensures
            link.wf(),
            link@ == (LinkModel {
                mode,
                rx: Seq::empty(),
                tx: TxModel::empty(),
                candidate: Seq::empty(),
                rx_overflows: 0,
                session: SessionModel::cold(LINK_TIMEOUT_NS, HEARTBEAT_PERIOD_NS),
                motor_seq: 0,
                pending_estop: None,
                link_loss_reported: false,
                handoff: HandoffModel::cold(),
                next_sample_id: 1,
            }),
    {
        ControlLink {
            mode,
            rx: RingBuf::new(),
            tx: TxState::new(),
            dec: Decoder::new(),
            rx_overflows: 0,
            session: LinkSession::new(LINK_TIMEOUT_NS, HEARTBEAT_PERIOD_NS),
            motor_seq: 0,
            pending_estop: None,
            link_loss_reported: false,
            handoff: Handoff::new(),
            next_sample_id: 1,
        }
    }

    /// Begin a pass at transport time `now`.
    pub fn begin_poll(now: u64) -> (pass: PollPass)
        ensures
            pass@ == PassModel::fresh(now),
    {
        PollPass {
            now,
            got: 0,
            rx_done: false,
            sent: 0,
            out: PollOutcome {
                estop: false,
                sensors: Vec::new(),
                heartbeats: Vec::new(),
                overflow_count: 0,
                link_loss: false,
            },
            effects: Vec::new(),
        }
    }

    /// Another byte may be taken in this pass.
    pub fn wants_rx(pass: &PollPass) -> (wanted: bool)
        ensures
            wanted == (pass@.got < RX_PER_POLL && !pass@.rx_done),
    {
        pass.got < RX_PER_POLL && !pass.rx_done
    }

    /// One look at the UART.
    pub fn on_rx(&mut self, pass: &mut PollPass, read: RxRead)
        requires
            old(self).wf(),
            old(pass)@.got < RX_PER_POLL,
            old(pass)@.overflow_count < RX_PER_POLL,
        ensures
            final(self).wf(),
            final(self).step(final(pass)) == old(self).step(old(pass)).received(read),
    {
        match read {
            RxRead::Byte(byte) => {
                if !self.rx.push(byte) {
                    self.rx_overflows = self.rx_overflows.wrapping_add(1);
                    pass.out.overflow_count = pass.out.overflow_count + 1;
                }
                pass.got = pass.got + 1;
            },
            RxRead::Empty => {
                pass.rx_done = true;
            },
            RxRead::Fault => {
                self.rx = RingBuf::new();
                self.dec = Decoder::new();
                pass.rx_done = true;
                pass.out.link_loss = true;
                pass.out.estop = true;
                match self.mode {
                    RuntimeMode::Managed => {
                        let operation = self.handoff.operation();
                        self.handoff_failed(pass, operation, HandoffError::NotEstablished);
                    },
                    RuntimeMode::Legacy => {
                        self.queue_stop(pass);
                    },
                }
            },
        }
    }

    /// A received byte is waiting to be decoded.
    pub fn has_input(&self) -> (waiting: bool)
        requires
            self.wf(),
        ensures
            waiting == (self@.rx.len() > 0),
    {
        !self.rx.is_empty()
    }

    /// The receive queue is bounded.
    pub proof fn lemma_rx_bound(&self)
        requires
            self.wf(),
        ensures
            self@.rx.len() <= RING_BYTES,
    {
        self.rx.lemma_bounded();
    }

    /// Decode the oldest received byte; `false` if there is none. `observed` and
    /// `sampled` are two readings of the physical counter.
    pub fn decode_next(&mut self, pass: &mut PollPass, observed: u64, sampled: u64) -> (more: bool)
        requires
            old(self).wf(),
            old(pass)@.overflow_count < usize::MAX,
        ensures
            final(self).wf(),
            more == (old(self)@.rx.len() > 0),
            final(self).step(final(pass)) == if more {
                old(self).step(old(pass)).decoded(observed, sampled)
            } else {
                old(self).step(old(pass))
            },
    {
        let byte: u8 = match self.rx.pop() {
            Some(byte) => byte,
            None => {
                return false;
            },
        };
        match self.dec.push(byte) {
            None => {},
            Some(Err(_)) => {
                match self.mode {
                    RuntimeMode::Managed => {
                        pass.effect(LinkEffect::InvalidateSensor);
                        pass.effect(LinkEffect::RequestStop);
                        self.queue_stop(pass);
                        pass.estop();
                    },
                    RuntimeMode::Legacy => {},
                }
            },
            Some(Ok(msg)) => {
                match self.mode {
                    RuntimeMode::Managed => {
                        self.show_handoff(pass, msg, observed);
                    },
                    RuntimeMode::Legacy => {},
                }
                self.take_message(pass, msg, sampled);
            },
        }
        true
    }

    fn show_handoff(&mut self, pass: &mut PollPass, msg: Msg, observed: u64)
        requires
            old(self).wf(),
        ensures
            final(self).wf(),
            final(self).step(final(pass)) == old(self).step(old(pass)).handoff_replied(
                msg,
                observed,
            ),
    {
        let operation = self.handoff.operation();
        let result = self.handoff.on_reply(msg, observed);
        pass.effect(LinkEffect::HandoffReply { operation, msg, observed, result });
        match result {
            Err(error) => {
                self.handoff_failed(pass, operation, error);
                pass.estop();
            },
            Ok(_) => {},
        }
    }

    fn take_message(&mut self, pass: &mut PollPass, msg: Msg, sampled: u64)
        requires
            old(self).wf(),
            old(pass)@.overflow_count < usize::MAX,
        ensures
            final(self).wf(),
            final(self).step(final(pass)) == old(self).step(old(pass)).message_taken(msg, sampled),
    {
        self.session.on_inbound(pass.now);
        self.link_loss_reported = false;
        match msg {
            Msg::Sensor { ultrasonic_echo_us, estop_line, flags } => {
                match self.mode {
                    RuntimeMode::Managed => {
                        pass.effect(
                            LinkEffect::PublishSensor {
                                received_at: sampled,
                                echo_us: ultrasonic_echo_us,
                                flags,
                                estop_line,
                            },
                        );
                    },
                    RuntimeMode::Legacy => {},
                }
                if pass.out.sensors.len() >= RX_PER_POLL {
                    pass.out.overflow_count = pass.out.overflow_count + 1;
                } else {
                    pass.out.sensors.push((self.next_sample_id, ultrasonic_echo_us));
                    self.next_sample_id = self.next_sample_id.wrapping_add(1);
                }
                pass.out.estop = pass.out.estop || estop_line;
            },
            Msg::HeartbeatToPi { seq } => {
                if pass.out.heartbeats.len() >= RX_PER_POLL {
                    pass.out.overflow_count = pass.out.overflow_count + 1;
                } else {
                    pass.out.heartbeats.push(seq);
                }
            },
            _ => {},
        }
    }

    /// Take the decisions of the pass. `checked_at` is a reading of the physical
    /// counter.
    pub fn decide(&mut self, pass: &mut PollPass, checked_at: u64)
        requires
            old(self).wf(),
        ensures
            final(self).wf(),
            final(self).step(final(pass)) == old(self).step(old(pass)).decided(checked_at),
    {
        let action = self.tick(pass);
        match self.mode {
            RuntimeMode::Managed => {
                self.check_handoff(pass, checked_at);
            },
            RuntimeMode::Legacy => {},
        }
        self.prune(pass);
        let flushes = self.flush_pending_estop(pass.now);
        match action {
            LinkAction::SafeStop => {
                if !self.has_pending_estop_assert() {
                    self.session.estop_sent();
                }
            },
            _ => {},
        }
        if !flushes {
            return ;
        }
        match self.mode {
            RuntimeMode::Managed => {
                match self.handoff.enqueue(&mut self.tx, pass.now) {
                    Ok(Some(frame)) => {
                        pass.effect(LinkEffect::HandoffFramed(frame));
                    },
                    Ok(None) => {},
                    Err(error) => {
                        let operation = self.handoff.operation();
                        self.handoff_failed(pass, operation, error);
                        pass.estop();
                    },
                }
            },
            RuntimeMode::Legacy => {},
        }
        if self.tx.is_idle() {
            self.flush_pending_motor(pass);
        }
        if self.tx.is_idle() {
            match action {
                LinkAction::Heartbeat(seq) => {
                    self.tx.start(&Msg::HeartbeatToShrike { seq }, pass.now);
                },
                _ => {},
            }
        }
    }

    fn tick(&mut self, pass: &mut PollPass) -> (action: LinkAction)
        requires
            old(self).wf(),
        ensures
            final(self).wf(),
            action == old(self)@.session.tick_action(old(pass)@.now),
            final(self).step(final(pass)) == old(self).step(old(pass)).ticked(),
    {
        let action = self.session.tick(pass.now);
        match action {
            LinkAction::SafeStop => {
                if !self.link_loss_reported {
                    pass.out.link_loss = true;
                    self.link_loss_reported = true;
                }
                match self.mode {
                    RuntimeMode::Managed => {
                        match self.handoff.operation() {
                            Some(id) => {
                                pass.effect(
                                    LinkEffect::RequestHandoffFailure(
                                        id,
                                        HandoffError::NotEstablished,
                                    ),
                                );
                            },
                            None => {},
                        }
                    },
                    RuntimeMode::Legacy => {},
                }
                self.queue_stop(pass);
            },
            _ => {},
        }
        action
    }

    fn check_handoff(&mut self, pass: &mut PollPass, checked_at: u64)
        requires
            old(self).wf(),
            old(self)@.managed(),
        ensures
            final(self).wf(),
            final(self).step(final(pass)) == old(self).step(old(pass)).handoff_checked(checked_at),
    {
        let operation = self.handoff.operation();
        match self.handoff.check(checked_at) {
            Err(error) => {
                self.handoff_failed(pass, operation, error);
                pass.estop();
            },
            Ok(()) => {},
        }
        if pass.alarming() {
            pass.effect(LinkEffect::InvalidateSensor);
            pass.effect(LinkEffect::RequestStop);
            self.queue_stop(pass);
        }
    }

    fn prune(&mut self, pass: &mut PollPass)
        requires
            old(self).wf(),
        ensures
            final(self).wf(),
            final(self).step(final(pass)) == old(self).step(old(pass)).pruned(),
    {
        let discarded = self.tx.discard_expired_motor(pass.now, LINK_TIMEOUT_NS);
        pass.effect(LinkEffect::MotorDiscarded(discarded, DiscardReason::Expired));
        if self.has_pending_estop_assert() {
            let discarded = self.tx.cancel_unsent();
            pass.effect(LinkEffect::MotorDiscarded(discarded, DiscardReason::Stop));
        }
    }

    /// The next byte to send in this pass.
    pub fn next_tx(&self, pass: &PollPass) -> (byte: Option<u8>)
        requires
            self.wf(),
        ensures
            byte == if pass@.sent < TX_PER_POLL {
                self@.tx.next()
            } else {
                None
            },
    {
        if pass.sent < TX_PER_POLL {
            self.tx.peek_byte()
        } else {
            None
        }
    }

    /// The UART took the byte of [`ControlLink::next_tx`]. `observed` is a
    /// reading of the physical counter.
    pub fn tx_accepted(&mut self, pass: &mut PollPass, observed: u64)
        requires
            old(self).wf(),
            old(pass)@.sent < TX_PER_POLL,
        ensures
            final(self).wf(),
            final(self).step(final(pass)) == old(self).step(old(pass)).sent(observed),
    {
        let completion = match self.tx.next_byte_with_completion() {
            Some((_, completion)) => completion,
            None => {
                return ;
            },
        };
        pass.sent = pass.sent + 1;
        match self.mode {
            RuntimeMode::Managed => {},
            RuntimeMode::Legacy => {
                return ;
            },
        }
        match completion {
            None => {},
            Some(FrameCompletion::Motor(frame)) => {
                pass.effect(LinkEffect::MotorCompleted(frame));
            },
            Some(FrameCompletion::Handoff(frame)) => {
                if self.owns(&frame) {
                    let result = self.handoff.sent(observed);
                    pass.effect(LinkEffect::HandoffCompleted { frame, observed, result });
                    match result {
                        Err(error) => {
                            self.handoff_failed(pass, frame.operation, error);
                            pass.estop();
                        },
                        Ok(()) => {},
                    }
                } else {
                    pass.effect(
                        LinkEffect::HandoffCompleted {
                            frame,
                            observed,
                            result: Err(HandoffError::Stale),
                        },
                    );
                }
            },
        }
    }

    /// The frame is the one that the running transaction started.
    fn owns(&self, frame: &HandoffFrame) -> (owned: bool)
        ensures
            owned == (self@.handoff.spec_operation() == frame.operation
                && self@.handoff.spec_started_frame() == Some(frame.message)),
    {
        let same_operation = match (self.handoff.operation(), frame.operation) {
            (Some(mine), Some(theirs)) => mine == theirs,
            (None, None) => true,
            _ => false,
        };
        match self.handoff.started_frame() {
            Some(message) => same_operation && message == frame.message,
            None => false,
        }
    }

    fn handoff_failed(&mut self, pass: &mut PollPass, operation: Option<u64>, error: HandoffError)
        requires
            old(self).wf(),
        ensures
            final(self).wf(),
            final(self).step(final(pass)) == old(self).step(old(pass)).handoff_failed(
                operation,
                error,
            ),
    {
        match operation {
            Some(id) => {
                pass.effect(LinkEffect::RequestHandoffFailure(id, error));
            },
            None => {
                pass.effect(LinkEffect::RequestStop);
            },
        }
        self.queue_stop(pass);
    }

    fn queue_stop(&mut self, pass: &mut PollPass)
        requires
            old(self).wf(),
        ensures
            final(self).wf(),
            final(self).step(final(pass)) == old(self).step(old(pass)).stop(),
    {
        let discarded = self.queue_estop(true);
        pass.effect(LinkEffect::MotorDiscarded(discarded, DiscardReason::Stop));
    }

    /// Queue a stop command; the motor work that it drops.
    fn queue_estop(&mut self, asserted: bool) -> (discarded: MotorDiscards)
        requires
            old(self).wf(),
        ensures
            final(self).wf(),
            final(self)@ == old(self)@.estop_requested(asserted),
            discarded == if asserted {
                old(self)@.estop_discards()
            } else {
                MotorDiscards { pending: None, frame: None }
            },
    {
        let mut discarded = MotorDiscards::default();
        if asserted {
            discarded = self.tx.clear_motor();
            match self.mode {
                RuntimeMode::Managed => {
                    self.handoff.disarm();
                },
                RuntimeMode::Legacy => {},
            }
        }
        self.pending_estop = Some(
            match (self.pending_estop, asserted) {
                (None, true) => PendingEstop::Assert,
                (Some(PendingEstop::Release), true) => PendingEstop::Assert,
                (None, false) => PendingEstop::Release,
                (Some(PendingEstop::Release), false) => PendingEstop::Release,
                (Some(_), true) => PendingEstop::Assert,
                (Some(_), false) => PendingEstop::AssertThenRelease,
            },
        );
        discarded
    }

    /// Command the peer's emergency stop. `true` once every pending command is
    /// on the line; otherwise the next passes retry before anything else. Also
    /// the motor work that was dropped.
    pub fn request_estop(&mut self, asserted: bool, now: u64) -> (result: (
        bool,
        MotorDiscards,
        MotorDiscards,
    ))
        requires
            old(self).wf(),
        ensures
            final(self).wf(),
            ({
                let cleared = old(self)@.estop_requested(asserted).cleared_for_stop();
                &&& final(self)@ == cleared.estop_flushed(now)
                &&& result.0 == cleared.estop_flushes()
                &&& result.1 == if asserted {
                    old(self)@.estop_discards()
                } else {
                    MotorDiscards { pending: None, frame: None }
                }
                &&& result.2 == (MotorDiscards {
                    pending: None,
                    frame: if old(self)@.estop_requested(asserted).assert_pending() {
                        old(self)@.tx.unsent_discard()
                    } else {
                        None
                    },
                })
            }),
    {
        let dropped = self.queue_estop(asserted);
        let mut cancelled = MotorDiscards::default();
        if self.has_pending_estop_assert() {
            cancelled = self.tx.cancel_unsent();
        }
        (self.flush_pending_estop(now), dropped, cancelled)
    }

    fn flush_pending_estop(&mut self, now: u64) -> (flushed: bool)
        requires
            old(self).wf(),
        ensures
            final(self).wf(),
            flushed == old(self)@.estop_flushes(),
            final(self)@ == old(self)@.estop_flushed(now),
    {
        let pending = match self.pending_estop {
            Some(pending) => pending,
            None => {
                return true;
            },
        };
        let asserted = match pending {
            PendingEstop::Assert => true,
            PendingEstop::AssertThenRelease => true,
            PendingEstop::Release => false,
        };
        if !self.tx.start(&Msg::Estop { assert: asserted }, now) {
            return false;
        }
        self.pending_estop = match pending {
            PendingEstop::AssertThenRelease => Some(PendingEstop::Release),
            _ => None,
        };
        true
    }

    fn has_pending_estop_assert(&self) -> (pending: bool)
        ensures
            pending == self@.assert_pending(),
    {
        match self.pending_estop {
            Some(PendingEstop::Assert) => true,
            Some(PendingEstop::AssertThenRelease) => true,
            _ => false,
        }
    }

    /// Queue a motor pair. Refused, with nothing changed, for a dead peer, for
    /// motion that is not permitted, and for motion while a stop is pending.
    pub fn set_motor_pair(&mut self, left: i16, right: i16, now: u64, origin: Option<MotorOrigin>)
        -> (queued: Option<MotorDiscards>)
        requires
            old(self).wf(),
        ensures
            final(self).wf(),
            ({
                let before = old(self)@;
                let accepted = before.session.spec_alive(now) && before.motion_permitted() && !(
                before.assert_pending() && (left != 0 || right != 0));
                if accepted {
                    &&& queued == Some(
                        MotorDiscards { pending: before.tx.pending_motor, frame: None },
                    )
                    &&& final(self)@ == (LinkModel {
                        tx: before.tx.with_pending(
                            MotorRequest { left, right, queued_at: now, origin },
                        ),
                        ..before
                    })
                } else {
                    queued is None && final(self)@ == before
                }
            }),
    {
        if !self.session.alive(now) || !self.permits_motion() {
            return None;
        }
        if self.has_pending_estop_assert() && (left != 0 || right != 0) {
            return None;
        }
        Some(self.tx.replace_motor_request(MotorRequest { left, right, queued_at: now, origin }))
    }

    /// Queue a zero pair ahead of motion that has not started. Refused, with
    /// nothing changed, for a dead peer and where motion is not permitted.
    pub fn set_safe_motor_pair(&mut self, now: u64, origin: Option<MotorOrigin>) -> (queued: Option<
        MotorDiscards,
    >)
        requires
            old(self).wf(),
        ensures
            final(self).wf(),
            ({
                let before = old(self)@;
                if before.session.spec_alive(now) && before.motion_permitted() {
                    &&& queued == Some(
                        MotorDiscards {
                            pending: before.tx.pending_motor,
                            frame: before.tx.unsent_motor_discard(),
                        },
                    )
                    &&& final(self)@ == (LinkModel {
                        tx: before.tx.without_unsent_motor().with_pending(
                            MotorRequest { left: 0, right: 0, queued_at: now, origin },
                        ),
                        ..before
                    })
                } else {
                    queued is None && final(self)@ == before
                }
            }),
    {
        if !self.session.alive(now) || !self.permits_motion() {
            return None;
        }
        Some(
            self.tx.prioritize_motor_request(
                MotorRequest { left: 0, right: 0, queued_at: now, origin },
            ),
        )
    }

    fn permits_motion(&self) -> (permitted: bool)
        ensures
            permitted == self@.motion_permitted(),
    {
        match self.mode {
            RuntimeMode::Managed => self.handoff.motion_permitted(),
            RuntimeMode::Legacy => true,
        }
    }

    fn flush_pending_motor(&mut self, pass: &mut PollPass)
        requires
            old(self).wf(),
            old(self)@.tx.active is None,
        ensures
            final(self).wf(),
            final(self).step(final(pass)) == old(self).step(old(pass)).motor_framed(),
    {
        if !self.permits_motion() {
            let discarded = self.tx.clear_motor();
            pass.effect(LinkEffect::MotorDiscarded(discarded, DiscardReason::Inhibited));
            return ;
        }
        let seq: u8 = self.motor_seq.wrapping_add(1);
        match self.tx.start_pending_motor(seq) {
            None => {},
            Some(frame) => {
                self.motor_seq = seq;
                match self.mode {
                    RuntimeMode::Managed => {
                        pass.effect(LinkEffect::MotorStarted(frame));
                    },
                    RuntimeMode::Legacy => {},
                }
            },
        }
    }

    /// Queue any other message behind pending stop commands. Managed traffic
    /// has no such way in.
    pub fn send(&mut self, msg: &Msg, now: u64) -> (queued: bool)
        requires
            old(self).wf(),
        ensures
            final(self).wf(),
            ({
                let before = old(self)@;
                let flushed = before.estop_flushed(now);
                if before.managed() {
                    !queued && final(self)@ == before
                } else if flushed.tx.active is None {
                    &&& queued
                    &&& final(self)@ == (LinkModel {
                        tx: TxModel { active: Some(fresh_frame(*msg, now)), ..flushed.tx },
                        ..flushed
                    })
                } else {
                    !queued && final(self)@ == flushed
                }
            }),
    {
        match self.mode {
            RuntimeMode::Managed => false,
            RuntimeMode::Legacy => {
                if self.flush_pending_estop(now) {
                    self.tx.start(msg, now)
                } else {
                    false
                }
            },
        }
    }

    /// Before a release boundary looks at the handoff: a pending stop command
    /// ends it.
    pub fn prepare_boundary(&mut self)
        requires
            old(self).wf(),
        ensures
            final(self).wf(),
            final(self)@ == if old(self)@.pending_estop is Some {
                LinkModel { handoff: old(self)@.handoff.disarmed(), ..old(self)@ }
            } else {
                old(self)@
            },
    {
        if self.pending_estop.is_some() {
            self.handoff.disarm();
        }
    }

    /// Bytes lost for want of room in the receive queue.
    pub fn rx_overflow_count(&self) -> (count: u32)
        ensures
            count == self@.rx_overflows,
    {
        self.rx_overflows
    }

    /// The peer was heard within the timeout.
    pub fn link_alive(&self, now: u64) -> (alive: bool)
        ensures
            alive == self@.session.spec_alive(now),
    {
        self.session.alive(now)
    }
}

/// A reading as the sensor observers see it.
#[derive(Debug, Clone, Copy, PartialEq, Eq, Structural)]
pub struct IioEvent {
    pub timestamp: u64,
    pub device_id: u32,
    pub channel: u32,
    pub value: i32,
    /// In millionths.
    pub scale: u32,
    pub offset: i32,
    pub reserved: u32,
}

/// The event of a range reading: the echo time in microseconds, not scaled.
pub fn ultrasonic_event(now: u64, echo_us: u16) -> (event: IioEvent)
    ensures
        event == (IioEvent {
            timestamp: now,
            device_id: ULTRASONIC_DEVICE_ID,
            channel: ULTRASONIC_CHANNEL,
            value: echo_us as i32,
            scale: 1_000_000,
            offset: 0,
            reserved: 0,
        }),
{
    IioEvent {
        timestamp: now,
        device_id: ULTRASONIC_DEVICE_ID,
        channel: ULTRASONIC_CHANNEL,
        value: echo_us as i32,
        scale: 1_000_000,
        offset: 0,
        reserved: 0,
    }
}

/// What is to be done about a pass once the link is unlocked.
#[derive(Debug, Clone, Copy, PartialEq, Eq, Structural)]
pub enum ServiceEvent {
    /// Stop managed motion.
    ManagedStop,
    /// Report lost input.
    InputOverflow(usize),
    /// Stop because the peer says so or cannot be heard properly.
    WatchdogStop,
    /// Report a heartbeat of the peer.
    Heartbeat(u16),
    /// Report a lost link.
    LinkLoss,
    /// Report a range reading and hand it to the sensor observers.
    EchoDone(u64, u16),
}

/// One event if `present`.
pub open spec fn event_if(present: bool, event: ServiceEvent) -> Seq<ServiceEvent> {
    if present {
        seq![event]
    } else {
        Seq::empty()
    }
}

/// What is to be done about a pass, in order. Managed motion is only stopped;
/// everything else is reported by other means.
pub open spec fn service_plan(mode: RuntimeMode, pass: PassModel) -> Seq<ServiceEvent> {
    match mode {
        RuntimeMode::Managed => event_if(pass.alarming(), ServiceEvent::ManagedStop),
        RuntimeMode::Legacy => event_if(
            pass.overflow_count != 0,
            ServiceEvent::InputOverflow(pass.overflow_count as usize),
        ) + event_if(pass.estop, ServiceEvent::WatchdogStop) + Seq::new(
            pass.heartbeats.len(),
            |i: int| ServiceEvent::Heartbeat(pass.heartbeats[i]),
        ) + event_if(pass.link_loss, ServiceEvent::LinkLoss) + Seq::new(
            pass.sensors.len(),
            |i: int| ServiceEvent::EchoDone(pass.sensors[i].0, pass.sensors[i].1),
        ),
    }
}

/// What is to be done about a pass once the link is unlocked.
pub fn service_events(mode: RuntimeMode, pass: &PollPass) -> (events: Vec<ServiceEvent>)
    ensures
        events@ == service_plan(mode, pass@),
{
    let mut events: Vec<ServiceEvent> = Vec::new();
    match mode {
        RuntimeMode::Managed => {
            if pass.alarming() {
                events.push(ServiceEvent::ManagedStop);
            }
            assert(events@ =~= service_plan(mode, pass@));
            return events;
        },
        RuntimeMode::Legacy => {},
    }
    if pass.out.overflow_count != 0 {
        events.push(ServiceEvent::InputOverflow(pass.out.overflow_count));
    }
    if pass.out.estop {
        events.push(ServiceEvent::WatchdogStop);
    }
    let ghost head = events@;
    let mut i: usize = 0;
    while i < pass.out.heartbeats.len()
        invariant
            i <= pass.out.heartbeats@.len(),
            events@ =~= head + Seq::new(
                i as nat,
                |k: int| ServiceEvent::Heartbeat(pass.out.heartbeats@[k]),
            ),
        decreases pass.out.heartbeats@.len() - i,
    {
        events.push(ServiceEvent::Heartbeat(pass.out.heartbeats[i]));
        i = i + 1;
    }
    if pass.out.link_loss {
        events.push(ServiceEvent::LinkLoss);
    }
    let ghost front = events@;
    let mut j: usize = 0;
    while j < pass.out.sensors.len()
        invariant
            j <= pass.out.sensors@.len(),
            events@ =~= front + Seq::new(
                j as nat,
                |k: int| ServiceEvent::EchoDone(
                    pass.out.sensors@[k].0,
                    pass.out.sensors@[k].1,
                ),
            ),
        decreases pass.out.sensors@.len() - j,
    {
        let (id, echo): (u64, u16) = pass.out.sensors[j];
        events.push(ServiceEvent::EchoDone(id, echo));
        j = j + 1;
    }
    assert(events@ =~= service_plan(mode, pass@));
    events
}

/// Law: an asserted stop is never lost in the queue: whatever else is asked for,
/// the next command sent asserts, and only a release that was asked for after
/// it can follow.
pub proof fn law_assert_is_never_lost(pending: Option<PendingEstop>, asserted: bool)
    ensures
        asserts_next(estop_queued(pending, true)),
        pending is Some && asserts_next(pending->0) ==> asserts_next(
            estop_queued(pending, asserted),
        ),
        estop_queued(Some(estop_queued(pending, true)), false) == PendingEstop::AssertThenRelease,
        after_next(PendingEstop::AssertThenRelease) == Some(PendingEstop::Release),
{
}

/// Law: while a stop command is pending and cannot be framed, a pass frames
/// nothing else.
pub proof fn law_stop_goes_first(step: Step, checked_at: u64)
    requires
        step.ticked().handoff_checked(checked_at).pruned().link.pending_estop is Some,
        step.ticked().handoff_checked(checked_at).pruned().link.tx.active is Some,
    ensures
        step.decided(checked_at).link.tx == step.ticked().handoff_checked(
            checked_at,
        ).pruned().link.tx,
{
}

/// Law: a dead link is sent no heartbeat; a stop is queued or on its way.
pub proof fn law_dead_link_is_stopped(step: Step, checked_at: u64)
    requires
        step.link.session.tick_action(step.pass.now) == LinkAction::SafeStop,
    ensures
        ({
            let ticked = step.ticked();
            &&& ticked.link.assert_pending()
            &&& ticked.link.tx.pending_motor is None
            &&& step.link.managed() ==> ticked.link.handoff.phase == Phase::Disarmed
            &&& !step.link.link_loss_reported ==> ticked.pass.link_loss
        }),
{
}

/// Law: a receive fault drops every byte received so far, so nothing buffered
/// can authorise motion; it calls for a stop and leaves no motion waiting.
pub proof fn law_fault_discards_everything(step: Step)
    ensures
        ({
            let after = step.received(RxRead::Fault);
            &&& after.link.rx.len() == 0
            &&& after.link.candidate.len() == 0
            &&& after.pass.estop
            &&& after.pass.link_loss
            &&& after.link.assert_pending()
            &&& after.link.tx.pending_motor is None
            &&& step.link.managed() ==> after.link.handoff.phase == Phase::Disarmed
        }),
{
}

/// Law: a sensor frame with the stop line set always calls for a stop.
pub proof fn law_stop_line_is_reported(step: Step, echo: u16, flags: u8, sampled: u64)
    ensures
        step.message_taken(
            Msg::Sensor { ultrasonic_echo_us: echo, estop_line: true, flags },
            sampled,
        ).pass.estop,
{
}

/// Law: managed motion that is not permitted never reaches the line: the
/// waiting pair is dropped instead of framed.
pub proof fn law_inhibited_motion_is_dropped(link: LinkModel)
    requires
        !link.motion_permitted(),
    ensures
        link.motor_flushed().tx.active == link.tx.active,
        link.motor_flushed().tx.pending_motor is None,
{
}

/// Law: the wheels are channels 1 (left) and 2 (right) of PWM chip 0, unless the channel
/// is reserved; no other channel drives a wheel.
pub proof fn law_wheels_of_channels(chip: u8, channel: u8, reserved: bool)
    ensures
        wheel_of(chip, channel, reserved) == Some(MotorSide::Left) <==> !reserved && chip == 0
            && channel == 1,
        wheel_of(chip, channel, reserved) == Some(MotorSide::Right) <==> !reserved && chip == 0
            && channel == 2,
{
}

/// Law: the peer counts as dead after 80 ms of silence and is sent four heartbeats in
/// that time.
pub proof fn law_link_times()
    ensures
        LINK_TIMEOUT_NS == 80_000_000,
        4 * HEARTBEAT_PERIOD_NS == LINK_TIMEOUT_NS,
        LINK_BAUD == 115_200,
{
}

/// The stop commands that are still to be sent, in order: true asserts.
pub open spec fn commands(pending: Option<PendingEstop>) -> Seq<bool> {
    match pending {
        None => Seq::empty(),
        Some(PendingEstop::Assert) => seq![true],
        Some(PendingEstop::Release) => seq![false],
        Some(PendingEstop::AssertThenRelease) => seq![true, false],
    }
}

/// Law: the last stop command to be sent is always the one that was asked for last, and
/// an assertion that was not sent yet is sent first. Flushing on an idle line puts the
/// first command on the wire and keeps the others; on a busy line nothing happens.
pub proof fn law_stop_commands_in_order(link: LinkModel, asserted: bool, now: u64)
    ensures
        ({
            let before = commands(link.pending_estop);
            let asked = commands(Some(estop_queued(link.pending_estop, asserted)));
            let flushed = link.estop_flushed(now);
            &&& asked.len() >= 1
            &&& asked.last() == asserted
            &&& before.len() > 0 && before[0] ==> asked[0]
            &&& asked.len() == 2 <==> before.len() > 0 && before[0] && !asserted
            &&& link.tx.active is None && before.len() > 0 ==> {
                &&& flushed.tx.active == Some(fresh_frame(Msg::Estop { assert: before[0] }, now))
                &&& commands(flushed.pending_estop) == before.drop_first()
            }
            &&& link.tx.active is Some || before.len() == 0 ==> flushed == link
            &&& link.assert_pending() <==> before.len() > 0 && before[0]
        }),
{
    let before = commands(link.pending_estop);
    if before.len() > 0 {
        assert(seq![true].drop_first() =~= Seq::<bool>::empty());
        assert(seq![false].drop_first() =~= Seq::<bool>::empty());
        assert(seq![true, false].drop_first() =~= seq![false]);
    }
}

/// Law: asserting a stop drops the pair that waits, reports it, and ends a managed
/// handoff; a release drops nothing. A frame on its way and the duties on the wire stay.
pub proof fn law_asserting_drops_motion(link: LinkModel, asserted: bool)
    ensures
        ({
            let after = link.estop_requested(asserted);
            &&& after.tx.pending_motor == if asserted {
                None
            } else {
                link.tx.pending_motor
            }
            &&& after.tx.active == link.tx.active
            &&& after.tx.last_motor_on_wire == link.tx.last_motor_on_wire
            &&& asserted && link.mode is Managed ==> after.handoff.phase is Disarmed
            &&& !asserted || link.mode is Legacy ==> after.handoff == link.handoff
            &&& link.estop_discards().pending == link.tx.pending_motor
            &&& link.estop_discards().frame is None
            &&& after.pending_estop is Some
        }),
{
}

/// Law: while an assertion waits, a frame that has put nothing on the wire makes way; any
/// other frame stays.
pub proof fn law_unsent_frame_makes_way_for_stop(link: LinkModel)
    ensures
        link.tx.active is Some && link.tx.active->0.sent == 0 ==> (
        link.cleared_for_stop().tx.active is None <==> commands(link.pending_estop).len() > 0
            && commands(link.pending_estop)[0]),
        link.tx.active is Some && link.tx.active->0.sent > 0 ==> link.cleared_for_stop() == link,
{
}

/// Law: every message that arrives keeps the peer alive. A reading adds its echo time
/// under the next sample number and calls for a stop exactly if its stop line is set; a
/// heartbeat adds its number. Beyond 64 of a kind they are counted as lost.
pub proof fn law_message_is_taken(step: Step, msg: Msg, sampled: u64)
    ensures
        ({
            let after = step.message_taken(msg, sampled);
            &&& after.link.session == step.link.session.refreshed(step.pass.now)
            &&& !after.link.link_loss_reported
            &&& after.link.tx == step.link.tx
            &&& after.link.pending_estop == step.link.pending_estop
            &&& match msg {
                Msg::Sensor { ultrasonic_echo_us, estop_line, flags } => {
                    &&& after.pass.estop == (step.pass.estop || estop_line)
                    &&& step.pass.sensors.len() < 64 ==> {
                        &&& after.pass.sensors == step.pass.sensors.push(
                            (step.link.next_sample_id, ultrasonic_echo_us),
                        )
                        &&& after.pass.overflow_count == step.pass.overflow_count
                        &&& after.link.next_sample_id as int == (step.link.next_sample_id + 1)
                            % 0x1_0000_0000_0000_0000
                    }
                    &&& step.pass.sensors.len() >= 64 ==> {
                        &&& after.pass.sensors == step.pass.sensors
                        &&& after.pass.overflow_count == step.pass.overflow_count + 1
                    }
                    &&& after.pass.effects == if step.link.mode is Managed {
                        step.pass.effects.push(
                            LinkEffect::PublishSensor {
                                received_at: sampled,
                                echo_us: ultrasonic_echo_us,
                                flags,
                                estop_line,
                            },
                        )
                    } else {
                        step.pass.effects
                    }
                },
                Msg::HeartbeatToPi { seq } => {
                    &&& after.pass.estop == step.pass.estop
                    &&& step.pass.heartbeats.len() < 64 ==> after.pass.heartbeats
                        == step.pass.heartbeats.push(seq)
                    &&& step.pass.heartbeats.len() >= 64 ==> after.pass.overflow_count
                        == step.pass.overflow_count + 1
                    &&& after.pass.sensors == step.pass.sensors
                },
                _ => after.pass == step.pass,
            }
        }),
{
}

/// Law: a byte that arrives goes behind those that wait; without room it is lost and
/// counted. An empty UART ends the taking and changes nothing else.
pub proof fn law_bytes_are_queued(step: Step, byte: u8)
    ensures
        ({
            let after = step.received(RxRead::Byte(byte));
            let idle = step.received(RxRead::Empty);
            &&& after.pass.got == step.pass.got + 1
            &&& step.link.rx.len() < 256 ==> {
                &&& after.link.rx == step.link.rx.push(byte)
                &&& after.pass.overflow_count == step.pass.overflow_count
                &&& after.link.rx_overflows == step.link.rx_overflows
            }
            &&& step.link.rx.len() >= 256 ==> {
                &&& after.link.rx == step.link.rx
                &&& after.pass.overflow_count == step.pass.overflow_count + 1
                &&& after.link.rx_overflows as int == (step.link.rx_overflows + 1) % 0x1_0000_0000
            }
            &&& after.link.tx == step.link.tx
            &&& idle.link == step.link
            &&& idle.pass.rx_done
            &&& idle.pass.estop == step.pass.estop
        }),
{
}

/// Law: bytes are decoded oldest first. A broken frame stops managed motion and is
/// otherwise ignored; a message is shown to a managed handoff, and in both modes taken.
pub proof fn law_oldest_byte_is_decoded(step: Step, observed: u64, sampled: u64)
    requires
        step.link.rx.len() > 0,
    ensures
        ({
            let after = step.decoded(observed, sampled);
            let (candidate, outcome) = decode_step(step.link.candidate, step.link.rx[0]);
            &&& after.link.rx == step.link.rx.drop_first()
            &&& after.link.candidate == candidate
            &&& outcome is None ==> after.pass == step.pass && after.link.session
                == step.link.session
            &&& outcome is Some && outcome->0 is Err && step.link.mode is Managed ==> {
                &&& after.pass.estop
                &&& after.link.assert_pending()
                &&& after.link.tx.pending_motor is None
                &&& after.link.handoff.phase is Disarmed
                &&& after.link.session == step.link.session
            }
            &&& outcome is Some && outcome->0 is Err && step.link.mode is Legacy ==> {
                &&& after.pass == step.pass
                &&& after.link.session == step.link.session
                &&& after.link.pending_estop == step.link.pending_estop
            }
            &&& outcome is Some && outcome->0 is Ok ==> after.link.session
                == step.link.session.refreshed(step.pass.now)
            &&& outcome is Some && outcome->0 is Ok && step.link.mode is Managed
                && step.link.handoff.check_error(observed) is None ==> after.link.handoff
                == step.link.handoff.replied(outcome->0->Ok_0, observed)
            &&& outcome is Some && outcome->0 is Ok && step.link.mode is Managed
                && step.link.handoff.check_error(observed) is Some ==> after.pass.estop
                && after.link.assert_pending() && after.link.handoff.phase is Disarmed
        }),
{
}

/// Law: a tick of a live link stops nothing; the loss of a link is reported once until
/// the peer is heard again.
pub proof fn law_tick_of_a_live_link(step: Step)
    ensures
        ({
            let ticked = step.ticked();
            let dead = step.link.session.tick_action(step.pass.now) is SafeStop;
            &&& !dead ==> ticked.pass == step.pass && ticked.link.tx == step.link.tx
                && ticked.link.pending_estop == step.link.pending_estop && ticked.link.handoff
                == step.link.handoff
            &&& dead && step.link.link_loss_reported ==> ticked.pass.link_loss
                == step.pass.link_loss
            &&& dead ==> ticked.link.link_loss_reported
            &&& ticked.link.session == step.link.session.ticked(step.pass.now)
        }),
{
}

/// Law: anything alarming, that is a stop, a lost link or lost input, stops managed
/// motion, and so does a handoff that ran out of time. Nothing else does.
pub proof fn law_alarm_stops_managed_motion(step: Step, at: u64)
    ensures
        ({
            let after = step.handoff_checked(at);
            let alarm = step.pass.estop || step.pass.link_loss || step.pass.overflow_count != 0
                || step.link.handoff.check_error(at) is Some;
            &&& step.link.mode is Legacy ==> after == step
            &&& step.link.mode is Managed && alarm ==> {
                &&& after.link.assert_pending()
                &&& after.link.tx.pending_motor is None
                &&& after.link.handoff.phase is Disarmed
                &&& after.pass.effects.contains(LinkEffect::RequestStop)
                &&& after.pass.effects.contains(LinkEffect::InvalidateSensor)
            }
            &&& step.link.mode is Managed && !alarm ==> {
                &&& after.link.pending_estop == step.link.pending_estop
                &&& after.link.tx == step.link.tx
                &&& after.pass == step.pass
            }
        }),
{
    let after = step.handoff_checked(at);
    let n = after.pass.effects.len();
    let alarm = step.pass.estop || step.pass.link_loss || step.pass.overflow_count != 0
        || step.link.handoff.check_error(at) is Some;
    if step.link.mode is Managed && alarm {
        assert(after.pass.effects[n - 2] == LinkEffect::RequestStop);
        assert(after.pass.effects[n - 3] == LinkEffect::InvalidateSensor);
    }
}

/// Law: motor work that has waited 80 ms without putting a byte on the wire is dropped in
/// every pass, and a frame in the way of a stop.
pub proof fn law_pass_drops_old_motion(step: Step)
    ensures
        ({
            let after = step.pruned().link.tx;
            let before = step.link.tx;
            &&& before.pending_motor is Some && before.pending_motor->0.queued_at + 80_000_000
                <= step.pass.now ==> after.pending_motor is None
            &&& before.pending_motor is Some && before.pending_motor->0.queued_at + 80_000_000
                > step.pass.now ==> after.pending_motor == before.pending_motor
            &&& before.active is Some && before.active->0.motor is Some && before.active->0.sent
                == 0 && before.active->0.queued_at + 80_000_000 <= step.pass.now
                ==> after.active is None
            &&& before.active is Some && before.active->0.sent > 0 ==> after.active == before.active
            &&& step.link.assert_pending() && before.active is Some && before.active->0.sent == 0
                ==> after.active is None
            &&& after.last_motor_on_wire == before.last_motor_on_wire
        }),
{
}

/// Law: what an idle line carries next, in this order: a stop command that waits, the
/// message of a managed handoff, the motor pair that waits and is permitted, a heartbeat
/// that is due. The setpoints are numbered one after the other.
pub proof fn law_order_on_an_idle_line(step: Step, at: u64)
    requires
        step.ticked().handoff_checked(at).pruned().link.tx.active is None,
    ensures
        ({
            let ready = step.ticked().handoff_checked(at).pruned();
            let link = ready.link;
            let after = step.decided(at).link;
            let now = step.pass.now;
            let stops = commands(link.pending_estop);
            let message = if link.mode is Managed {
                link.handoff.spec_outbound()
            } else {
                None
            };
            let permitted = link.mode is Legacy || link.handoff.phase is Ready;
            let seq = (link.motor_seq + 1) % 256;
            &&& stops.len() > 0 ==> after.tx.active is Some && after.tx.active->0.wire
                == crate::link::codec::wire(Msg::Estop { assert: stops[0] })
            &&& stops.len() == 0 && message is Some ==> after.tx.active is Some
                && after.tx.active->0.wire == crate::link::codec::wire(message->0)
                && after.handoff.spec_started_frame() == message
            &&& stops.len() == 0 && message is None && permitted && link.tx.pending_motor is Some
                ==> {
                let frame = link.tx.next_motor_frame(seq as u8)->0;
                &&& after.motor_seq == seq
                &&& after.tx.active is Some
                &&& after.tx.active->0.motor == Some(frame)
                &&& after.tx.active->0.wire == crate::link::codec::wire(
                    Msg::MotorSetpoint {
                        seq: seq as u8,
                        left: frame.request.left,
                        right: frame.request.right,
                    },
                )
            }
            &&& stops.len() == 0 && message is None && (!permitted || link.tx.pending_motor is None)
                ==> match step.link.session.tick_action(now) {
                LinkAction::Heartbeat(beat) => after.tx.active is Some && after.tx.active->0.wire
                    == crate::link::codec::wire(Msg::HeartbeatToShrike { seq: beat }),
                _ => after.tx.active is None,
            }
            &&& !permitted && stops.len() == 0 && message is None ==> after.tx.pending_motor is None
        }),
{
    let ready = step.ticked().handoff_checked(at).pruned();
    let seq = ((ready.link.motor_seq + 1) % 256) as u8;
    law_stop_commands_in_order(ready.link, true, step.pass.now);
    if ready.link.tx.pending_motor is Some {
        crate::link::tx::law_waiting_pair_is_framed(ready.link.tx, seq);
    } else {
        crate::link::tx::law_nothing_is_framed(ready.link.tx, seq);
    }
}

/// Law: a byte that the UART took is gone from the frame, whatever else it brings about.
/// In managed mode the last byte of a motor frame records it. The last byte of a handoff
/// message counts for the handoff exactly if it is the message on the line, of the same
/// operation; otherwise it is recorded as stale.
pub proof fn law_taken_byte_is_gone(step: Step, observed: u64)
    requires
        step.link.tx.active is Some,
    ensures
        ({
            let after = step.sent(observed);
            let frame = step.link.tx.active->0;
            let last = frame.sent + 1 == frame.wire.len();
            &&& after.link.tx.active == step.link.tx.advanced().active
            &&& after.link.tx.last_motor_on_wire == step.link.tx.advanced().last_motor_on_wire
            &&& after.pass.sent == step.pass.sent + 1
            &&& !last || step.link.mode is Legacy ==> after.pass.effects == step.pass.effects
                && after.link.handoff == step.link.handoff
            &&& last && step.link.mode is Managed && frame.motor is Some ==> after.pass.effects
                == step.pass.effects.push(LinkEffect::MotorCompleted(frame.motor->0))
            &&& last && step.link.mode is Managed && frame.motor is None && frame.handoff is Some
                ==> {
                let h = frame.handoff->0;
                let current = step.link.handoff.spec_operation() == h.operation
                    && step.link.handoff.spec_started_frame() == Some(h.message);
                &&& !current ==> after.link.handoff == step.link.handoff && after.pass.effects
                    == step.pass.effects.push(
                    LinkEffect::HandoffCompleted {
                        frame: h,
                        observed,
                        result: Err(HandoffError::Stale),
                    },
                )
                &&& current && step.link.handoff.sent_result(observed) is Ok ==> after.link.handoff
                    == step.link.handoff.after_sent(observed)
                &&& current && step.link.handoff.sent_result(observed) is Err ==> after.pass.estop
                    && after.link.assert_pending()
            }
        }),
{
}

/// Law: once the link is unlocked, managed motion is stopped exactly for an alarm. In
/// legacy mode lost input is reported first, then a stop, then the heartbeats, a lost
/// link and the readings, each in order and once.
pub proof fn law_service_order(mode: RuntimeMode, pass: PassModel)
    ensures
        ({
            let plan = service_plan(mode, pass);
            let alarm = pass.estop || pass.link_loss || pass.overflow_count > 0;
            let lost = if pass.overflow_count > 0 {
                1int
            } else {
                0
            };
            let stop = if pass.estop {
                1int
            } else {
                0
            };
            let loss = if pass.link_loss {
                1int
            } else {
                0
            };
            let beats = pass.heartbeats.len() as int;
            match mode {
                RuntimeMode::Managed => {
                    &&& alarm ==> plan == seq![ServiceEvent::ManagedStop]
                    &&& !alarm ==> plan.len() == 0
                },
                RuntimeMode::Legacy => {
                    &&& plan.len() == lost + stop + beats + loss + pass.sensors.len()
                    &&& lost == 1 ==> plan[0] == ServiceEvent::InputOverflow(
                        pass.overflow_count as usize,
                    )
                    &&& stop == 1 ==> plan[lost] == ServiceEvent::WatchdogStop
                    &&& forall|i: int|
                        0 <= i < beats ==> #[trigger] plan[lost + stop + i]
                            == ServiceEvent::Heartbeat(pass.heartbeats[i])
                    &&& loss == 1 ==> plan[lost + stop + beats] == ServiceEvent::LinkLoss
                    &&& forall|i: int|
                        0 <= i < pass.sensors.len() ==> #[trigger] plan[lost + stop + beats + loss
                            + i] == ServiceEvent::EchoDone(pass.sensors[i].0, pass.sensors[i].1)
                },
            }
        }),
{
}

/// Law: motion is managed by the handoff: it may be queued in legacy mode, and otherwise
/// only in an established session.
pub proof fn law_motion_needs_a_session(link: LinkModel)
    ensures
        link.motion_permitted() <==> link.mode is Legacy || link.handoff.phase is Ready,
{
}

/// Law: a pass begins with nothing taken, sent, seen or done, at the time that it was given.
pub proof fn law_pass_begins_empty(now: u64)
    ensures
        ({
            let pass = PassModel::fresh(now);
            &&& pass.now == now
            &&& pass.got == 0 && pass.sent == 0 && !pass.rx_done
            &&& !pass.estop && !pass.link_loss && pass.overflow_count == 0
            &&& pass.sensors.len() == 0 && pass.heartbeats.len() == 0 && pass.effects.len() == 0
            &&& !pass.alarming()
        }),
{
}

} // verus!
