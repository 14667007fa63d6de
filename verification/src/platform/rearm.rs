//! Bounded requalification of the control link.
//!
//! A rearm finishes the frame on the line, drains the line, exchanges the
//! requalification messages, drains again and offers the session. It proceeds
//! in passes. The embedding program performs the I/O of a pass and reports each
//! event with a fresh reading of the physical counter:
//!
//! 1. [`Rearm::admit_pass`], before any I/O, and [`Rearm::begin_pass`];
//! 2. in a drain pass, one step of the UART drain, whose clock is
//!    [`Rearm::drain_clock`], and then [`Rearm::drain_polled`];
//! 3. in an exchange pass, up to [`BYTES_PER_PASS`] bytes in, each framed by
//!    [`Rearm::observe`] and [`Rearm::rx_read`]; [`Rearm::enqueue`]; up to
//!    [`BYTES_PER_PASS`] bytes out, each framed by [`Rearm::observe`] and
//!    [`Rearm::tx_attempted`]; and [`Rearm::end_pass`].
//!
//! No liveness and no command may run until the owner commits the receipt.

use vstd::arithmetic::div_mod::{
    lemma_fundamental_div_mod, lemma_fundamental_div_mod_converse, lemma_mod_bound,
};
use vstd::prelude::*;

use crate::link::codec::{decode_step, Decoder, LinkError, Msg};
use crate::link::handoff::{requalify_outcome, Handoff, HandoffError, HandoffModel};
use crate::link::tx::{
    fresh_frame, FrameCompletion, FrameModel, HandoffFrame, MotorDiscards, TxModel, TxState,
};
use crate::platform::pl011::InitError;

verus! {

/// Quiet time of a drain, in nanoseconds.
pub const DRAIN_NS: u64 = 1_000_000_000;

/// Overall time of a rearm.
pub const OVERALL_SECONDS: u64 = 2;

/// Time for the peer to take the offer.
pub const OFFER_MS: u64 = 80;

/// Most bytes in, and most bytes out, of one pass.
pub const BYTES_PER_PASS: usize = 64;

/// Most passes of a rearm.
pub const MAX_PASSES: u32 = 1_048_576;

/// Something to record.
#[derive(Debug, Clone, Copy, PartialEq, Eq)]
pub enum Event {
    Framed(HandoffFrame),
    Completed(FrameCompletion, u64, Result<(), HandoffError>),
    Reply(Msg, u64, Result<bool, HandoffError>),
}

#[derive(Debug, Clone, Copy, PartialEq, Eq, Structural)]
pub enum RearmPhase {
    /// The frame on the line is finished; inbound bytes have no authority.
    FinishOld,
    InitialDrain,
    Exchange,
    FinalDrain,
}

/// What a pass consists of.
#[derive(Debug, Clone, Copy, PartialEq, Eq, Structural)]
pub enum PassKind {
    Drain,
    Exchange,
}

/// How a pass ends.
#[derive(Debug, Clone, Copy, PartialEq, Eq, Structural)]
pub enum PassEnd {
    /// The line is to be drained; report with [`Rearm::drain_begun`].
    StartDrain,
    /// Whether the line was idle in both directions, with no frame half read.
    Settled(bool),
}

/// A rearm under way. Its view is a [`RearmModel`].
pub struct Rearm {
    operation: u64,
    frequency: u64,
    last_ticks: u64,
    passes: u32,
    phase: RearmPhase,
    decoder: Decoder,
    partial: bool,
}

/// A rearm as a value.
#[verifier::ext_equal]
pub struct RearmModel {
    pub operation: u64,
    pub frequency: u64,
    /// Last time seen.
    pub last_ticks: u64,
    pub passes: u32,
    pub phase: RearmPhase,
    /// The candidate frame of the decoder.
    pub candidate: Seq<u8>,
    /// A frame is half read.
    pub partial: bool,
}

/// Nanoseconds of a counter reading, if they fit.
pub open spec fn ticks_ns(ticks: u64, frequency: u64) -> Result<u64, HandoffError> {
    let ns = ticks * 1_000_000_000 / (frequency as int);
    if ns > u64::MAX {
        Err(HandoffError::Exhausted)
    } else {
        Ok(ns as u64)
    }
}

/// The quotient, rounded up.
pub open spec fn quotient_up(value: int, divisor: int) -> int {
    (value + divisor - 1) / divisor
}

/// Rounding up adds one to the quotient unless the division is exact.
proof fn lemma_quotient_up(value: int, divisor: int)
    requires
        value >= 0,
        divisor > 0,
    ensures
        quotient_up(value, divisor) == value / divisor + if value % divisor == 0 {
            0int
        } else {
            1int
        },
{
    let q = value / divisor;
    let r = value % divisor;
    lemma_fundamental_div_mod(value, divisor);
    lemma_mod_bound(value, divisor);
    if r == 0 {
        lemma_fundamental_div_mod_converse(value + divisor - 1, divisor, q, divisor - 1);
    } else {
        assert(divisor * (q + 1) == divisor * q + divisor) by (nonlinear_arith);
        lemma_fundamental_div_mod_converse(value + divisor - 1, divisor, q + 1, r - 1);
    }
}

/// Why a rearm cannot begin, before anything is touched.
pub open spec fn begin_error(operation: u64, now: u64, frequency: u64) -> Option<HandoffError> {
    if operation == 0 {
        Some(HandoffError::BadIdentity)
    } else if frequency == 0 || frequency * OVERALL_SECONDS > u64::MAX {
        Some(HandoffError::InvalidTimeout)
    } else if now + frequency * OVERALL_SECONDS > u64::MAX {
        Some(HandoffError::Exhausted)
    } else {
        match ticks_ns(now, frequency) {
            Err(error) => Some(error),
            Ok(_) => None,
        }
    }
}

/// A stop, or a sensor frame with the stop line set.
pub open spec fn is_stop_message(msg: Msg) -> bool {
    match msg {
        Msg::Estop { .. } => true,
        Msg::Sensor { estop_line, .. } => estop_line,
        _ => false,
    }
}

impl RearmModel {
    pub open spec fn finishing(self) -> bool {
        self.phase == RearmPhase::FinishOld
    }

    /// Why no pass can begin: the transaction is not held any more, or all
    /// passes are used up.
    pub open spec fn pass_refusal(self, handoff: HandoffModel) -> Option<HandoffError> {
        if handoff.spec_operation() != Some(self.operation) {
            Some(HandoffError::Stale)
        } else if self.passes == MAX_PASSES {
            Some(HandoffError::TimedOut)
        } else {
            None
        }
    }

    pub open spec fn draining(self) -> bool {
        self.phase == RearmPhase::InitialDrain || self.phase == RearmPhase::FinalDrain
    }

    pub open spec fn at(self, ticks: u64) -> RearmModel {
        RearmModel { last_ticks: ticks, ..self }
    }

    /// Why `ticks` ends the rearm.
    pub open spec fn observe_error(self, handoff: HandoffModel, ticks: u64) -> Option<
        HandoffError,
    > {
        if ticks < self.last_ticks {
            Some(HandoffError::ClockReversed)
        } else {
            handoff.check_error(ticks)
        }
    }

    /// The rearm after a look at the clock.
    pub open spec fn observed(self, ticks: u64) -> RearmModel {
        if ticks < self.last_ticks {
            self
        } else {
            self.at(ticks)
        }
    }

    /// The handoff after that look.
    pub open spec fn handoff_observed(self, handoff: HandoffModel, ticks: u64) -> HandoffModel {
        if ticks < self.last_ticks {
            handoff
        } else {
            handoff.checked(ticks)
        }
    }

    /// Rearm, handoff, event and result after the UART was read.
    pub open spec fn rx_taken(self, handoff: HandoffModel, byte: Option<u8>, ticks: u64) -> (
        RearmModel,
        HandoffModel,
        Option<Event>,
        Result<(), HandoffError>,
    ) {
        let seen = self.observed(ticks);
        let shown = self.handoff_observed(handoff, ticks);
        match self.observe_error(handoff, ticks) {
            Some(error) => (seen, shown, None, Err(error)),
            None => match byte {
                Some(byte) if !self.finishing() => {
                    let (candidate, outcome) = decode_step(self.candidate, byte);
                    let fed = RearmModel { candidate, partial: true, ..seen };
                    match outcome {
                        None => (fed, shown, None, Ok(())),
                        Some(Err(_)) => (fed, shown, None, Err(HandoffError::NotEstablished)),
                        Some(Ok(msg)) => {
                            let whole = RearmModel { partial: false, ..fed };
                            let reply = shown.reply_result(msg, ticks);
                            if is_stop_message(msg) {
                                (whole, shown, None, Err(HandoffError::NotEstablished))
                            } else {
                                (
                                    whole,
                                    shown.replied(msg, ticks),
                                    Some(Event::Reply(msg, ticks, reply)),
                                    match reply {
                                        Ok(_) => Ok(()),
                                        Err(error) => Err(error),
                                    },
                                )
                            }
                        },
                    }
                },
                _ => (seen, shown, None, Ok(())),
            },
        }
    }

    /// The time for the peer to take the offer, in ticks.
    pub open spec fn offer_ticks(self) -> int {
        quotient_up(self.frequency * OFFER_MS, 1000)
    }
}

impl View for Rearm {
    type V = RearmModel;

    closed spec fn view(&self) -> RearmModel {
        RearmModel {
            operation: self.operation,
            frequency: self.frequency,
            last_ticks: self.last_ticks,
            passes: self.passes,
            phase: self.phase,
            candidate: self.decoder@,
            partial: self.partial,
        }
    }
}

/// `result` is `Ok` without an error, else that error.
pub open spec fn fails_with(
    result: Result<(), HandoffError>,
    error: Option<HandoffError>,
) -> bool {
    result == match error {
        Some(error) => Err(error),
        None => Ok::<(), HandoffError>(()),
    }
}

impl Rearm {
    /// There is a clock, and the parts are well formed.
    pub closed spec fn wf(&self) -> bool {
        &&& self.frequency > 0
        &&& self.decoder.wf()
        &&& self.passes <= MAX_PASSES
    }

    /// The clock has a frequency, and no pass is beyond the limit.
    pub proof fn lemma_bounded(&self)
        requires
            self.wf(),
        ensures
            self@.frequency > 0,
            self@.passes <= MAX_PASSES,
    {
    }

    /// Begin a rearm for a local operation: all old eligibility ends, motion
    /// that has not started is dropped, and a session is reserved.
    pub fn begin(operation: u64, now: u64, frequency: u64, handoff: &mut Handoff, tx: &mut TxState)
        -> (result: Result<(Self, MotorDiscards), HandoffError>)
        requires
            old(tx).wf(),
        ensures
            final(tx).wf(),
            match begin_error(operation, now, frequency) {
                Some(error) => {
                    &&& result == Err::<(Rearm, MotorDiscards), HandoffError>(error)
                    &&& final(handoff)@ == old(handoff)@
                    &&& final(tx)@ == old(tx)@
                },
                None => {
                    let timeout = (frequency * OVERALL_SECONDS) as u64;
                    exists|reserved: Result<(u32, MotorDiscards), HandoffError>|
                        {
                            &&& #[trigger] requalify_outcome(
                                old(handoff)@.disarmed(),
                                final(handoff)@,
                                old(tx)@,
                                final(tx)@,
                                Some(operation),
                                now,
                                timeout,
                                reserved,
                            )
                            &&& match reserved {
                                Ok((_, discarded)) => {
                                    &&& result is Ok
                                    &&& result->Ok_0.1 == discarded
                                    &&& result->Ok_0.0.wf()
                                    &&& result->Ok_0.0@ == (RearmModel {
                                        operation,
                                        frequency,
                                        last_ticks: now,
                                        passes: 0,
                                        phase: RearmPhase::FinishOld,
                                        candidate: Seq::empty(),
                                        partial: false,
                                    })
                                },
                                Err(error) => result == Err::<(Rearm, MotorDiscards), HandoffError>(
                                    error,
                                ),
                            }
                        }
                },
            },
    {
        if operation == 0 {
            return Err(HandoffError::BadIdentity);
        }
        let timeout: u64 = match frequency.checked_mul(OVERALL_SECONDS) {
            Some(timeout) => timeout,
            None => {
                return Err(HandoffError::InvalidTimeout);
            },
        };
        if timeout == 0 {
            return Err(HandoffError::InvalidTimeout);
        }
        if now.checked_add(timeout).is_none() {
            return Err(HandoffError::Exhausted);
        }
        match nanos(now, frequency) {
            Ok(_) => {},
            Err(error) => {
                return Err(error);
            },
        }
        handoff.disarm();
        let reserved = handoff.rearm_on_transport(operation, now, timeout, tx);
        match reserved {
            Ok((_, discarded)) => Ok(
                (
                    Rearm {
                        operation,
                        frequency,
                        last_ticks: now,
                        passes: 0,
                        phase: RearmPhase::FinishOld,
                        decoder: Decoder::new(),
                        partial: false,
                    },
                    discarded,
                ),
            ),
            Err(error) => Err(error),
        }
    }

    pub fn operation(&self) -> (operation: u64)
        ensures
            operation == self@.operation,
    {
        self.operation
    }

    /// Take a reading of the counter, which must not run back.
    fn sample(&mut self, ticks: u64) -> (result: Result<u64, HandoffError>)
        requires
            old(self).wf(),
        ensures
            final(self).wf(),
            final(self)@ == old(self)@.observed(ticks),
            result == if ticks < old(self)@.last_ticks {
                Err(HandoffError::ClockReversed)
            } else {
                Ok(ticks)
            },
    {
        if ticks < self.last_ticks {
            return Err(HandoffError::ClockReversed);
        }
        self.last_ticks = ticks;
        Ok(ticks)
    }

    /// Take a reading of the counter and hold the transaction against it.
    pub fn observe(&mut self, handoff: &mut Handoff, ticks: u64) -> (result: Result<
        (),
        HandoffError,
    >)
        requires
            old(self).wf(),
        ensures
            final(self).wf(),
            final(self)@ == old(self)@.observed(ticks),
            final(handoff)@ == old(self)@.handoff_observed(old(handoff)@, ticks),
            fails_with(result, old(self)@.observe_error(old(handoff)@, ticks)),
    {
        match self.sample(ticks) {
            Ok(ticks) => handoff.check(ticks),
            Err(error) => Err(error),
        }
    }

    /// Whether a pass can begin. No reading of the counter is needed to tell.
    pub fn admit_pass(&self, handoff: &Handoff) -> (result: Result<(), HandoffError>)
        ensures
            fails_with(result, self@.pass_refusal(handoff@)),
    {
        match handoff.operation() {
            Some(operation) => {
                if operation != self.operation {
                    return Err(HandoffError::Stale);
                }
            },
            None => {
                return Err(HandoffError::Stale);
            },
        }
        if self.passes == MAX_PASSES {
            return Err(HandoffError::TimedOut);
        }
        Ok(())
    }

    /// Begin a pass with the first reading of the counter.
    pub fn begin_pass(&mut self, handoff: &mut Handoff, ticks: u64) -> (result: Result<
        PassKind,
        HandoffError,
    >)
        requires
            old(self).wf(),
        ensures
            final(self).wf(),
            ({
                let before = old(self)@;
                let counted = RearmModel { passes: (before.passes + 1) as u32, ..before };
                match before.pass_refusal(old(handoff)@) {
                    Some(error) => {
                        &&& result == Err::<PassKind, HandoffError>(error)
                        &&& final(self)@ == before
                        &&& final(handoff)@ == old(handoff)@
                    },
                    None => {
                        &&& final(self)@ == counted.observed(ticks)
                        &&& final(handoff)@ == before.handoff_observed(old(handoff)@, ticks)
                        &&& match before.observe_error(old(handoff)@, ticks) {
                            Some(error) => result == Err::<PassKind, HandoffError>(error),
                            None => result == Ok::<PassKind, HandoffError>(
                                if before.draining() {
                                    PassKind::Drain
                                } else {
                                    PassKind::Exchange
                                },
                            ),
                        }
                    },
                }
            }),
    {
        match self.admit_pass(handoff) {
            Ok(()) => {},
            Err(error) => {
                return Err(error);
            },
        }
        self.passes = self.passes + 1;
        match self.observe(handoff, ticks) {
            Ok(()) => {},
            Err(error) => {
                return Err(error);
            },
        }
        match self.phase {
            RearmPhase::InitialDrain => Ok(PassKind::Drain),
            RearmPhase::FinalDrain => Ok(PassKind::Drain),
            _ => Ok(PassKind::Exchange),
        }
    }

    /// The line is drained for the last time.
    pub fn in_final_drain(&self) -> (last: bool)
        ensures
            last == (self@.phase == RearmPhase::FinalDrain),
    {
        match self.phase {
            RearmPhase::FinalDrain => true,
            _ => false,
        }
    }

    /// Nanoseconds of one tick, rounded up: the grain of the drain's clock.
    pub fn drain_quantum(&self) -> (ns: u64)
        requires
            self.wf(),
        ensures
            ns == quotient_up(1_000_000_000, self@.frequency as int),
    {
        let whole: u64 = 1_000_000_000 / self.frequency;
        proof {
            lemma_quotient_up(1_000_000_000, self.frequency as int);
        }
        if 1_000_000_000 % self.frequency == 0 {
            whole
        } else {
            whole + 1
        }
    }

    /// The clock of a drain: nanoseconds of a counter reading.
    pub fn drain_clock(&mut self, ticks: u64) -> (result: Result<u64, HandoffError>)
        requires
            old(self).wf(),
        ensures
            final(self).wf(),
            final(self)@ == old(self)@.observed(ticks),
            result == if ticks < old(self)@.last_ticks {
                Err(HandoffError::ClockReversed)
            } else {
                ticks_ns(ticks, old(self)@.frequency)
            },
    {
        match self.sample(ticks) {
            Ok(ticks) => nanos(ticks, self.frequency),
            Err(error) => Err(error),
        }
    }

    /// A step of the drain went well; `quiet` once the line is drained. Behind
    /// the final drain the session is offered.
    pub fn drain_polled(
        &mut self,
        handoff: &mut Handoff,
        quiet: bool,
        offer_ticks: u64,
        ticks: u64,
    ) -> (result: Result<(), HandoffError>)
        requires
            old(self).wf(),
        ensures
            final(self).wf(),
            ({
                let before = old(self)@;
                let offering = quiet && before.phase == RearmPhase::FinalDrain;
                let settled = RearmModel {
                    phase: if quiet {
                        RearmPhase::Exchange
                    } else {
                        before.phase
                    },
                    ..before
                };
                if !offering {
                    &&& final(self)@ == settled.observed(ticks)
                    &&& final(handoff)@ == before.handoff_observed(old(handoff)@, ticks)
                    &&& fails_with(result, before.observe_error(old(handoff)@, ticks))
                } else if before.frequency * OFFER_MS > u64::MAX {
                    &&& result == Err::<(), HandoffError>(HandoffError::Exhausted)
                    &&& final(self)@ == before
                    &&& final(handoff)@ == old(handoff)@
                } else if offer_ticks < before.last_ticks {
                    &&& result == Err::<(), HandoffError>(HandoffError::ClockReversed)
                    &&& final(self)@ == before
                    &&& final(handoff)@ == old(handoff)@
                } else {
                    let timeout = before.offer_ticks() as u64;
                    let offered = old(handoff)@.after_drain_offer(offer_ticks, timeout);
                    match old(handoff)@.drain_offer_result(offer_ticks, timeout) {
                        Err(error) => {
                            &&& result == Err::<(), HandoffError>(error)
                            &&& final(self)@ == before.at(offer_ticks)
                            &&& final(handoff)@ == offered
                        },
                        Ok(_) => {
                            let there = settled.at(offer_ticks);
                            &&& final(self)@ == there.observed(ticks)
                            &&& final(handoff)@ == there.handoff_observed(offered, ticks)
                            &&& fails_with(result, there.observe_error(offered, ticks))
                        },
                    }
                }
            }),
    {
        if quiet {
            match self.phase {
                RearmPhase::FinalDrain => {
                    let scaled: u64 = match self.frequency.checked_mul(OFFER_MS) {
                        Some(scaled) => scaled,
                        None => {
                            return Err(HandoffError::Exhausted);
                        },
                    };
                    let timeout: u64 = if scaled % 1000 == 0 {
                        scaled / 1000
                    } else {
                        scaled / 1000 + 1
                    };
                    proof {
                        lemma_quotient_up(scaled as int, 1000);
                    }
                    match self.sample(offer_ticks) {
                        Ok(_) => {},
                        Err(error) => {
                            return Err(error);
                        },
                    }
                    match handoff.offer_after_requalification_drain(offer_ticks, timeout) {
                        Ok(_) => {},
                        Err(error) => {
                            return Err(error);
                        },
                    }
                },
                _ => {},
            }
            self.phase = RearmPhase::Exchange;
        }
        self.observe(handoff, ticks)
    }

    /// The UART was read: a byte, or `None` if it had none. While an old frame
    /// is finished bytes are ignored; later a stop message ends the rearm and
    /// any other message is shown to the handoff. The event to record comes
    /// back with the result.
    pub fn rx_read(&mut self, handoff: &mut Handoff, byte: Option<u8>, ticks: u64) -> (result: (
        Option<Event>,
        Result<(), HandoffError>,
    ))
        requires
            old(self).wf(),
        ensures
            final(self).wf(),
            (final(self)@, final(handoff)@, result.0, result.1) == old(self)@.rx_taken(
                old(handoff)@,
                byte,
                ticks,
            ),
    {
        match self.observe(handoff, ticks) {
            Ok(()) => {},
            Err(error) => {
                return (None, Err(error));
            },
        }
        let byte: u8 = match byte {
            Some(byte) => byte,
            None => {
                return (None, Ok(()));
            },
        };
        match self.phase {
            RearmPhase::FinishOld => {
                return (None, Ok(()));
            },
            _ => {},
        }
        self.partial = true;
        let message = match self.decoder.push(byte) {
            None => {
                return (None, Ok(()));
            },
            Some(Err(_)) => {
                return (None, Err(HandoffError::NotEstablished));
            },
            Some(Ok(message)) => message,
        };
        self.partial = false;
        let stop = match message {
            Msg::Estop { .. } => true,
            Msg::Sensor { estop_line, .. } => estop_line,
            _ => false,
        };
        if stop {
            return (None, Err(HandoffError::NotEstablished));
        }
        let reply = handoff.on_reply(message, ticks);
        let event = Some(Event::Reply(message, ticks, reply));
        match reply {
            Ok(_) => (event, Ok(())),
            Err(error) => (event, Err(error)),
        }
    }

    /// Frame the pending message, if the line is idle and the old frame is
    /// finished.
    pub fn enqueue(&mut self, handoff: &mut Handoff, tx: &mut TxState) -> (result: Result<
        Option<Event>,
        HandoffError,
    >)
        requires
            old(self).wf(),
            old(tx).wf(),
        ensures
            final(self).wf(),
            final(tx).wf(),
            final(self)@ == old(self)@,
            ({
                let before = old(self)@;
                let frame = old(handoff)@.enqueued_frame(old(tx)@);
                match ticks_ns(before.last_ticks, before.frequency) {
                    Ok(now_ns) if !before.finishing() && frame is Some => {
                        &&& result == Ok::<Option<Event>, HandoffError>(
                            Some(Event::Framed(frame->0)),
                        )
                        &&& final(handoff)@ == old(handoff)@.with_transmission(
                            crate::link::handoff::Transmission::Started,
                        )
                        &&& final(tx)@ == (TxModel {
                            active: Some(
                                FrameModel {
                                    handoff: frame,
                                    ..fresh_frame(frame->0.message, now_ns)
                                },
                            ),
                            ..old(tx)@
                        })
                    },
                    Err(error) if !before.finishing() => {
                        &&& result == Err::<Option<Event>, HandoffError>(error)
                        &&& final(handoff)@ == old(handoff)@
                        &&& final(tx)@ == old(tx)@
                    },
                    _ => {
                        &&& result == Ok::<Option<Event>, HandoffError>(None)
                        &&& final(handoff)@ == old(handoff)@
                        &&& final(tx)@ == old(tx)@
                    },
                }
            }),
    {
        match self.phase {
            RearmPhase::FinishOld => {
                return Ok(None);
            },
            _ => {},
        }
        let now_ns: u64 = match nanos(self.last_ticks, self.frequency) {
            Ok(now_ns) => now_ns,
            Err(error) => {
                return Err(error);
            },
        };
        match handoff.enqueue(tx, now_ns) {
            Ok(Some(frame)) => Ok(Some(Event::Framed(frame))),
            Ok(None) => Ok(None),
            Err(error) => Err(error),
        }
    }

    /// The UART was offered the next byte; `written` if it took it. A byte that
    /// was taken leaves the frame even if the time is over. The event to record
    /// comes back with whether to go on.
    pub fn tx_attempted(
        &mut self,
        handoff: &mut Handoff,
        tx: &mut TxState,
        written: bool,
        ticks: u64,
    ) -> (result: (Option<Event>, Result<bool, HandoffError>))
        requires
            old(self).wf(),
            old(tx).wf(),
        ensures
            final(self).wf(),
            final(tx).wf(),
            final(self)@ == old(self)@.observed(ticks),
            final(tx)@ == if written {
                old(tx)@.advanced()
            } else {
                old(tx)@
            },
            ({
                let before = old(self)@;
                let shown = before.handoff_observed(old(handoff)@, ticks);
                let time_error = before.observe_error(old(handoff)@, ticks);
                let completion = if written {
                    old(tx)@.next_completion()
                } else {
                    None
                };
                let current = match completion {
                    Some(FrameCompletion::Handoff(frame)) => {
                        &&& old(handoff)@.spec_operation() == frame.operation
                        &&& old(handoff)@.spec_started_frame() == Some(frame.message)
                    },
                    _ => false,
                };
                let accounted: Result<(), HandoffError> = match completion {
                    Some(FrameCompletion::Handoff(_)) => if !current {
                        Err(HandoffError::Stale)
                    } else {
                        match time_error {
                            Some(error) => Err(error),
                            None => shown.sent_result(ticks),
                        }
                    },
                    _ => match time_error {
                        Some(error) => Err(error),
                        None => Ok(()),
                    },
                };
                &&& result.0 == match completion {
                    Some(completion) => Some(Event::Completed(completion, ticks, accounted)),
                    None => None,
                }
                &&& final(handoff)@ == if current && time_error is None {
                    shown.after_sent(ticks)
                } else {
                    shown
                }
                &&& result.1 == if completion is Some && !before.finishing() && accounted is Err {
                    Err(accounted->Err_0)
                } else {
                    match time_error {
                        Some(error) => Err(error),
                        None => Ok::<bool, HandoffError>(written),
                    }
                }
            }),
    {
        let completion = if written {
            match tx.next_byte_with_completion() {
                Some((_, completion)) => completion,
                None => None,
            }
        } else {
            None
        };
        let current = match completion {
            Some(FrameCompletion::Handoff(frame)) => {
                let same_operation = match (handoff.operation(), frame.operation) {
                    (Some(mine), Some(theirs)) => mine == theirs,
                    (None, None) => true,
                    _ => false,
                };
                match handoff.started_frame() {
                    Some(message) => same_operation && message == frame.message,
                    None => false,
                }
            },
            _ => false,
        };
        let time_result = self.observe(handoff, ticks);
        let mut event: Option<Event> = None;
        match completion {
            Some(completion) => {
                let accounted = match completion {
                    FrameCompletion::Handoff(_) => {
                        if !current {
                            Err(HandoffError::Stale)
                        } else {
                            match time_result {
                                Ok(()) => handoff.sent(ticks),
                                Err(error) => Err(error),
                            }
                        }
                    },
                    FrameCompletion::Motor(_) => time_result,
                };
                event = Some(Event::Completed(completion, ticks, accounted));
                let finishing = match self.phase {
                    RearmPhase::FinishOld => true,
                    _ => false,
                };
                if !finishing {
                    match accounted {
                        Ok(()) => {},
                        Err(error) => {
                            return (event, Err(error));
                        },
                    }
                }
            },
            None => {},
        }
        match time_result {
            Ok(()) => (event, Ok(written)),
            Err(error) => (event, Err(error)),
        }
    }

    /// End an exchange pass. `rx_idle` if the UART ran out of bytes, `wire_idle`
    /// if frame and UART are empty on the sending side.
    pub fn end_pass(&mut self, handoff: &mut Handoff, rx_idle: bool, wire_idle: bool, ticks: u64)
        -> (result: Result<PassEnd, HandoffError>)
        requires
            old(self).wf(),
        ensures
            final(self).wf(),
            ({
                let before = old(self)@;
                let seen = before.observed(ticks);
                let shown = before.handoff_observed(old(handoff)@, ticks);
                let drain = wire_idle && (before.finishing() || (shown.phase is Draining && rx_idle
                    && !before.partial));
                &&& final(handoff)@ == shown
                &&& match before.observe_error(old(handoff)@, ticks) {
                    Some(error) => {
                        &&& result == Err::<PassEnd, HandoffError>(error)
                        &&& final(self)@ == seen
                    },
                    None => if drain {
                        &&& result == Ok::<PassEnd, HandoffError>(PassEnd::StartDrain)
                        &&& final(self)@ == (RearmModel { candidate: Seq::empty(), ..seen })
                    } else {
                        &&& result == Ok::<PassEnd, HandoffError>(
                            PassEnd::Settled(
                                !before.finishing() && rx_idle && wire_idle && !before.partial,
                            ),
                        )
                        &&& final(self)@ == seen
                    },
                }
            }),
    {
        match self.observe(handoff, ticks) {
            Ok(()) => {},
            Err(error) => {
                return Err(error);
            },
        }
        let finishing = match self.phase {
            RearmPhase::FinishOld => true,
            _ => false,
        };
        if wire_idle && (finishing || (handoff.needs_local_drain() && rx_idle && !self.partial)) {
            self.decoder = Decoder::new();
            return Ok(PassEnd::StartDrain);
        }
        Ok(PassEnd::Settled(!finishing && rx_idle && wire_idle && !self.partial))
    }

    /// The UART began to drain.
    pub fn drain_begun(&mut self, handoff: &mut Handoff, ticks: u64) -> (result: Result<
        (),
        HandoffError,
    >)
        requires
            old(self).wf(),
        ensures
            final(self).wf(),
            ({
                let begun = RearmModel {
                    phase: if old(self)@.finishing() {
                        RearmPhase::InitialDrain
                    } else {
                        RearmPhase::FinalDrain
                    },
                    ..old(self)@
                };
                &&& final(self)@ == begun.observed(ticks)
                &&& final(handoff)@ == begun.handoff_observed(old(handoff)@, ticks)
                &&& fails_with(result, begun.observe_error(old(handoff)@, ticks))
            }),
    {
        self.phase = match self.phase {
            RearmPhase::FinishOld => RearmPhase::InitialDrain,
            _ => RearmPhase::FinalDrain,
        };
        self.observe(handoff, ticks)
    }
}

/// What a failed drain step means for the handoff.
pub fn drain_error(error: InitError) -> (result: HandoffError)
    ensures
        result == match error {
            InitError::ClockRegression => HandoffError::ClockReversed,
            InitError::TimedOut => HandoffError::TimedOut,
            _ => HandoffError::NotEstablished,
        },
{
    match error {
        InitError::ClockRegression => HandoffError::ClockReversed,
        InitError::TimedOut => HandoffError::TimedOut,
        _ => HandoffError::NotEstablished,
    }
}

/// Nanoseconds of a counter reading, if they fit.
pub fn nanos(ticks: u64, frequency: u64) -> (result: Result<u64, HandoffError>)
    requires
        frequency > 0,
    ensures
        result == ticks_ns(ticks, frequency),
{
    assert(ticks * 1_000_000_000 <= u64::MAX * 1_000_000_000) by (nonlinear_arith)
        requires
            ticks <= u64::MAX,
    ;
    let ns: u128 = ticks as u128 * 1_000_000_000 / frequency as u128;
    if ns > 0xFFFF_FFFF_FFFF_FFFF {
        Err(HandoffError::Exhausted)
    } else {
        Ok(ns as u64)
    }
}

/// Law: while the old frame is finished, what arrives has no authority: a byte
/// does exactly what no byte does.
pub proof fn law_old_traffic_has_no_authority(
    rearm: RearmModel,
    handoff: HandoffModel,
    byte: u8,
    ticks: u64,
)
    requires
        rearm.finishing(),
    ensures
        rearm.rx_taken(handoff, Some(byte), ticks) == rearm.rx_taken(handoff, None, ticks),
{
}

/// Law: a stop message ends the rearm, and the handoff never sees it.
pub proof fn law_stop_message_ends_rearm(
    rearm: RearmModel,
    handoff: HandoffModel,
    byte: u8,
    ticks: u64,
    msg: Msg,
)
    requires
        !rearm.finishing(),
        rearm.observe_error(handoff, ticks) is None,
        decode_step(rearm.candidate, byte).1 == Some(Ok::<Msg, LinkError>(msg)),
        is_stop_message(msg),
    ensures
        ({
            let (_, after, event, result) = rearm.rx_taken(handoff, Some(byte), ticks);
            &&& result == Err::<(), HandoffError>(HandoffError::NotEstablished)
            &&& event is None
            &&& after == handoff.seen(ticks)
        }),
{
}

/// Law: a counter that runs back ends the rearm at whatever step it shows, and
/// the time last seen stands.
pub proof fn law_rearm_clock_is_monotonic(rearm: RearmModel, handoff: HandoffModel, ticks: u64)
    ensures
        rearm.observed(ticks).last_ticks >= rearm.last_ticks,
        ticks < rearm.last_ticks ==> rearm.observe_error(handoff, ticks) == Some(
            HandoffError::ClockReversed,
        ),
{
}

/// Law: the times of a rearm: it may take two seconds, the line is quiet for one second
/// in a drain, and the peer has 80 ms for the offer. A pass moves at most 64 bytes each
/// way, and there are at most two to the twentieth.
pub proof fn law_rearm_times()
    ensures
        OVERALL_SECONDS == 2,
        DRAIN_NS == 1_000_000_000,
        OFFER_MS == 80,
        BYTES_PER_PASS == 64,
        MAX_PASSES == 1024 * 1024,
{
}

/// Law: ticks are converted to whole nanoseconds, rounded down, and refused if they do
/// not fit.
pub proof fn law_ticks_in_nanoseconds(ticks: u64, frequency: u64)
    requires
        frequency > 0,
    ensures
        match ticks_ns(ticks, frequency) {
            Ok(ns) => ns * frequency <= ticks * 1_000_000_000 < (ns + 1) * frequency,
            Err(error) => error is Exhausted && ticks * 1_000_000_000
                >= 0x1_0000_0000_0000_0000 * frequency,
        },
{
    let value = ticks * 1_000_000_000;
    let f = frequency as int;
    let q = value / f;
    lemma_fundamental_div_mod(value, f);
    lemma_mod_bound(value, f);
    assert(q * f <= value < (q + 1) * f) by (nonlinear_arith)
        requires
            value == f * q + value % f,
            0 <= value % f < f,
    ;
    if q > u64::MAX {
        assert(q * f >= 0x1_0000_0000_0000_0000 * f) by (nonlinear_arith)
            requires
                q >= 0x1_0000_0000_0000_0000,
                f > 0,
        ;
    }
    assert(q >= 0) by {
        vstd::arithmetic::div_mod::lemma_div_pos_is_pos(value, f);
    }
}

/// Law: the peer has the fewest ticks for the offer that are 80 ms or more.
pub proof fn law_offer_lasts_eighty_milliseconds(rearm: RearmModel)
    ensures
        rearm.offer_ticks() * 1000 >= rearm.frequency * 80,
        (rearm.offer_ticks() - 1) * 1000 < rearm.frequency * 80,
{
    lemma_quotient_up(rearm.frequency * 80, 1000);
}

/// Law: a rearm can begin exactly for an operation that is not zero, on a clock with a
/// frequency, while two seconds of it and the nanoseconds of the time fit.
pub proof fn law_rearm_can_begin(operation: u64, now: u64, frequency: u64)
    ensures
        begin_error(operation, now, frequency) is None <==> operation > 0 && frequency > 0 && now
            + 2 * frequency <= 0xFFFF_FFFF_FFFF_FFFF && ticks_ns(now, frequency) is Ok,
        operation == 0 <==> begin_error(operation, now, frequency) == Some(
            HandoffError::BadIdentity,
        ),
        operation > 0 && (frequency == 0 || 2 * frequency > 0xFFFF_FFFF_FFFF_FFFF)
            <==> begin_error(operation, now, frequency) == Some(HandoffError::InvalidTimeout),
{
}

/// Law: every stop command, asserted or released, and every reading with the stop line
/// set is a stop message; nothing else is.
pub proof fn law_stop_messages(msg: Msg)
    ensures
        is_stop_message(msg) <==> match msg {
            Msg::Estop { assert: asserted } => true,
            Msg::Sensor { ultrasonic_echo_us, estop_line, flags } => estop_line,
            _ => false,
        },
{
}

/// Law: a pass is refused exactly once the handoff belongs to another operation, or all
/// passes are used up; the first comes first.
pub proof fn law_pass_is_refused(rearm: RearmModel, handoff: HandoffModel)
    ensures
        ({
            let held = handoff.spec_operation() == Some(rearm.operation);
            &&& rearm.pass_refusal(handoff) == Some(HandoffError::Stale) <==> !held
            &&& rearm.pass_refusal(handoff) == Some(HandoffError::TimedOut) <==> held
                && rearm.passes == 1_048_576
            &&& rearm.pass_refusal(handoff) is None <==> held && rearm.passes != 1_048_576
        }),
{
}

/// Law: in the exchange a byte goes to the decoder. A whole message that is no stop is
/// shown to the handoff and recorded; a broken frame ends the rearm. A frame counts as
/// half read from its first byte until it is whole.
pub proof fn law_exchange_reads_messages(
    rearm: RearmModel,
    handoff: HandoffModel,
    byte: u8,
    ticks: u64,
)
    requires
        rearm.phase is Exchange,
        rearm.observe_error(handoff, ticks) is None,
    ensures
        ({
            let (candidate, outcome) = decode_step(rearm.candidate, byte);
            let (after, moved, event, result) = rearm.rx_taken(handoff, Some(byte), ticks);
            &&& after.candidate == candidate
            &&& after.last_ticks == ticks
            &&& outcome is None ==> after.partial && event is None && result is Ok && moved
                == handoff.seen(ticks)
            &&& outcome is Some && outcome->0 is Err ==> event is None && result == Err::<
                (),
                HandoffError,
            >(HandoffError::NotEstablished)
            &&& outcome is Some && outcome->0 is Ok ==> !after.partial
            &&& outcome is Some && outcome->0 is Ok && !is_stop_message(outcome->0->Ok_0) ==> {
                let msg = outcome->0->Ok_0;
                let shown = handoff.seen(ticks);
                &&& moved == shown.replied(msg, ticks)
                &&& event == Some(Event::Reply(msg, ticks, shown.reply_result(msg, ticks)))
                &&& result is Ok <==> shown.reply_result(msg, ticks) is Ok
            }
        }),
{
}

/// Law: the error of a drain is a clock that went back, a missed deadline, or that nothing
/// is established.
pub proof fn law_drain_errors(error: InitError, result: HandoffError)
    requires
        call_ensures(drain_error, (error,), result),
    ensures
        result is ClockReversed <==> error is ClockRegression,
        result is TimedOut <==> error is TimedOut,
        result is ClockReversed || result is TimedOut || result is NotEstablished,
{
}

/// Law: the line is drained in the first and in the last phase, and in no other.
pub proof fn law_when_the_line_is_drained(rearm: RearmModel)
    ensures
        rearm.draining() <==> rearm.phase is InitialDrain || rearm.phase is FinalDrain,
{
}

} // verus!
