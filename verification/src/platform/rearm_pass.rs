//! One pass of a rearm, step by step.
//!
//! [`PassRun`] says what I/O comes next and is told what came of it. Every
//! reading of the counter that it asks for must be fresh.

use vstd::prelude::*;

use crate::link::handoff::{Handoff, HandoffError, HandoffModel, Transmission};
use crate::link::tx::{
    fresh_frame, FrameCompletion, FrameModel, HandoffFrame, TxModel, TxState,
};
use crate::platform::rearm::{
    ticks_ns, Event, PassEnd, PassKind, Rearm, RearmModel, RearmPhase, BYTES_PER_PASS, OFFER_MS,
};

verus! {

/// What has to be done next.
#[derive(Debug, Clone, Copy, PartialEq, Eq, Structural)]
pub enum PassAction {
    /// Read the counter.
    ReadClock,
    /// One step of the drain, timed by [`Rearm::drain_clock`].
    PollDrain,
    /// Read a byte from the UART, then the counter.
    ReadByte,
    /// Offer a byte to the UART, then read the counter.
    WriteByte(u8),
    /// See whether the UART has sent everything, then read the counter.
    ReadIdle,
    /// Let the UART drain, timed by [`Rearm::drain_clock`].
    BeginDrain,
    /// The pass is over. `settled`: the line was idle in both directions.
    Done { settled: bool },
    /// The rearm is over.
    Failed(HandoffError),
}

/// What was done.
#[derive(Debug, Clone, Copy, PartialEq, Eq)]
pub enum PassEvent {
    Clock { ticks: u64 },
    /// Whether the line is quiet.
    Drained(Result<bool, HandoffError>),
    /// A byte, or none.
    Byte { byte: Option<u8>, ticks: u64 },
    /// The UART reported an error.
    ReadFault,
    Wrote { written: bool, ticks: u64 },
    Idle { uart_idle: bool, ticks: u64 },
    DrainBegun(Result<(), HandoffError>),
}

/// Where the pass stands.
#[allow(inconsistent_fields)]
#[derive(Debug, Clone, Copy, PartialEq, Eq, Structural)]
pub enum PassPhase {
    Start,
    Drain,
    /// The line is quiet for the last time; the offer is timed next.
    Offer,
    DrainCheck { quiet: bool, offer: u64 },
    RxCheck { left: usize },
    RxRead { left: usize },
    TxCheck { left: usize, rx_idle: bool, byte: u8 },
    TxWrite { left: usize, rx_idle: bool, byte: u8 },
    /// All frames are with the UART.
    Closing { rx_idle: bool },
    /// A frame is not; the UART need not be asked.
    Unsent { rx_idle: bool },
    BeginDrain,
    BegunCheck,
    Finished { settled: bool },
    Failed(HandoffError),
}

/// Rearm, handoff and transmitter as values.
#[verifier::ext_equal]
pub struct PassState {
    pub rearm: RearmModel,
    pub handoff: HandoffModel,
    pub tx: TxModel,
}

/// A step: the phase after it, the state after it, and what is recorded.
pub struct PassStep {
    pub phase: PassPhase,
    pub state: PassState,
    pub events: Seq<Event>,
}

/// The phase in which a pass comes to its end.
pub open spec fn closing(tx: TxModel, rx_idle: bool) -> PassPhase {
    if tx.active is None {
        PassPhase::Closing { rx_idle }
    } else {
        PassPhase::Unsent { rx_idle }
    }
}

impl PassState {
    pub open spec fn quietly(self, phase: PassPhase) -> PassStep {
        PassStep { phase, state: self, events: Seq::empty() }
    }

    /// The counter was read.
    pub open spec fn observed(self, ticks: u64) -> PassState {
        PassState {
            rearm: self.rearm.observed(ticks),
            handoff: self.rearm.handoff_observed(self.handoff, ticks),
            ..self
        }
    }

    /// The counter was read; if that does not end the rearm, `phase` comes next.
    pub open spec fn checked(self, ticks: u64, phase: PassPhase) -> PassStep {
        self.observed(ticks).quietly(
            match self.rearm.observe_error(self.handoff, ticks) {
                Some(error) => PassPhase::Failed(error),
                None => phase,
            },
        )
    }

    /// The pass begins.
    #[verifier::opaque]
    pub open spec fn started(self, ticks: u64) -> PassStep {
        match self.rearm.pass_refusal(self.handoff) {
            Some(error) => self.quietly(PassPhase::Failed(error)),
            None => {
                let counted = PassState {
                    rearm: RearmModel { passes: (self.rearm.passes + 1) as u32, ..self.rearm },
                    ..self
                };
                counted.checked(
                    ticks,
                    if self.rearm.draining() {
                        PassPhase::Drain
                    } else {
                        PassPhase::RxCheck { left: BYTES_PER_PASS }
                    },
                )
            },
        }
    }

    /// A step of the drain was accounted for.
    #[verifier::opaque]
    pub open spec fn drained(self, quiet: bool, offer: u64, ticks: u64) -> PassStep {
        let r = self.rearm;
        let settled = RearmModel {
            phase: if quiet {
                RearmPhase::Exchange
            } else {
                r.phase
            },
            ..r
        };
        let over = PassPhase::Finished { settled: false };
        if !(quiet && r.phase == RearmPhase::FinalDrain) {
            PassState { rearm: settled, ..self }.checked(ticks, over)
        } else if r.frequency * OFFER_MS > u64::MAX {
            self.quietly(PassPhase::Failed(HandoffError::Exhausted))
        } else if offer < r.last_ticks {
            self.quietly(PassPhase::Failed(HandoffError::ClockReversed))
        } else {
            let timeout = r.offer_ticks() as u64;
            let offered = self.handoff.after_drain_offer(offer, timeout);
            match self.handoff.drain_offer_result(offer, timeout) {
                Err(error) => PassState { rearm: r.at(offer), handoff: offered, ..self }.quietly(
                    PassPhase::Failed(error),
                ),
                Ok(_) => PassState {
                    rearm: settled.at(offer),
                    handoff: offered,
                    ..self
                }.checked(ticks, over),
            }
        }
    }

    /// The sending side begins: the next message is framed first.
    #[verifier::opaque]
    pub open spec fn sending(self, rx_idle: bool) -> PassStep {
        let frame = self.handoff.enqueued_frame(self.tx);
        if self.rearm.finishing() {
            self.quietly(self.send_phase(BYTES_PER_PASS, rx_idle))
        } else {
            match ticks_ns(self.rearm.last_ticks, self.rearm.frequency) {
                Err(error) => self.quietly(PassPhase::Failed(error)),
                Ok(now_ns) => match frame {
                    Some(frame) => {
                        let framed = PassState {
                            handoff: self.handoff.with_transmission(Transmission::Started),
                            tx: TxModel {
                                active: Some(
                                    FrameModel {
                                        handoff: Some(frame),
                                        ..fresh_frame(frame.message, now_ns)
                                    },
                                ),
                                ..self.tx
                            },
                            ..self
                        };
                        PassStep {
                            phase: framed.send_phase(BYTES_PER_PASS, rx_idle),
                            state: framed,
                            events: seq![Event::Framed(frame)],
                        }
                    },
                    None => self.quietly(self.send_phase(BYTES_PER_PASS, rx_idle)),
                },
            }
        }
    }

    /// Another byte is sent, if there is one and the pass allows it.
    pub open spec fn send_phase(self, left: usize, rx_idle: bool) -> PassPhase {
        match self.tx.next() {
            Some(byte) => if left > 0 {
                PassPhase::TxCheck { left, rx_idle, byte }
            } else {
                self.close_phase(rx_idle)
            },
            None => self.close_phase(rx_idle),
        }
    }

    /// The pass comes to its end.
    pub open spec fn close_phase(self, rx_idle: bool) -> PassPhase {
        closing(self.tx, rx_idle)
    }

    /// The UART was read.
    #[verifier::opaque]
    pub open spec fn read(self, left: usize, byte: Option<u8>, ticks: u64) -> PassStep {
        let (rearm, handoff, event, result) = self.rearm.rx_taken(self.handoff, byte, ticks);
        let state = PassState { rearm, handoff, ..self };
        let recorded = match event {
            Some(event) => seq![event],
            None => Seq::empty(),
        };
        match result {
            Err(error) => PassStep { phase: PassPhase::Failed(error), state, events: recorded },
            Ok(_) => if byte is Some && left > 1 {
                PassStep {
                    phase: PassPhase::RxCheck { left: (left - 1) as usize },
                    state,
                    events: recorded,
                }
            } else {
                let next = state.sending(byte is None);
                PassStep { events: recorded + next.events, ..next }
            },
        }
    }

    /// A byte was offered to the UART.
    #[verifier::opaque]
    pub open spec fn offered(
        self,
        left: usize,
        rx_idle: bool,
        written: bool,
        ticks: u64,
    ) -> PassStep {
        let shown = self.rearm.handoff_observed(self.handoff, ticks);
        let time_error = self.rearm.observe_error(self.handoff, ticks);
        let completion = if written {
            self.tx.next_completion()
        } else {
            None
        };
        let current = match completion {
            Some(FrameCompletion::Handoff(frame)) => {
                &&& self.handoff.spec_operation() == frame.operation
                &&& self.handoff.spec_started_frame() == Some(frame.message)
            },
            _ => false,
        };
        let accounted: Result<(), HandoffError> = match completion {
            Some(FrameCompletion::Handoff(_)) => if !current {
                Err(HandoffError::Stale)
            } else {
                match time_error {
                    Some(error) => Err(error),
                    None => shown.sent_result(ticks),
                }
            },
            _ => match time_error {
                Some(error) => Err(error),
                None => Ok(()),
            },
        };
        let state = PassState {
            rearm: self.rearm.observed(ticks),
            handoff: if current && time_error is None {
                shown.after_sent(ticks)
            } else {
                shown
            },
            tx: if written {
                self.tx.advanced()
            } else {
                self.tx
            },
        };
        let phase = if completion is Some && !self.rearm.finishing() && accounted is Err {
            PassPhase::Failed(accounted->Err_0)
        } else {
            match time_error {
                Some(error) => PassPhase::Failed(error),
                None => if written {
                    state.send_phase((left - 1) as usize, rx_idle)
                } else {
                    state.close_phase(rx_idle)
                },
            }
        };
        PassStep {
            phase,
            state,
            events: match completion {
                Some(completion) => seq![Event::Completed(completion, ticks, accounted)],
                None => Seq::empty(),
            },
        }
    }

    /// The pass ends.
    #[verifier::opaque]
    pub open spec fn closed(self, rx_idle: bool, uart_idle: bool, ticks: u64) -> PassStep {
        let wire_idle = self.tx.active is None && uart_idle;
        let seen = self.observed(ticks);
        let drain = wire_idle && (self.rearm.finishing() || (seen.handoff.phase is Draining
            && rx_idle && !self.rearm.partial));
        match self.rearm.observe_error(self.handoff, ticks) {
            Some(error) => seen.quietly(PassPhase::Failed(error)),
            None => if drain {
                PassState {
                    rearm: RearmModel { candidate: Seq::empty(), ..seen.rearm },
                    ..seen
                }.quietly(PassPhase::BeginDrain)
            } else {
                seen.quietly(
                    PassPhase::Finished {
                        settled: !self.rearm.finishing() && rx_idle && wire_idle
                            && !self.rearm.partial,
                    },
                )
            },
        }
    }

    /// The UART has begun to drain.
    #[verifier::opaque]
    pub open spec fn begun(self, ticks: u64) -> PassStep {
        PassState {
            rearm: RearmModel {
                phase: if self.rearm.finishing() {
                    RearmPhase::InitialDrain
                } else {
                    RearmPhase::FinalDrain
                },
                ..self.rearm
            },
            ..self
        }.checked(ticks, PassPhase::Finished { settled: false })
    }

    /// The step that an event makes. An event that was not asked for changes
    /// nothing.
    pub open spec fn step(self, phase: PassPhase, event: PassEvent) -> PassStep {
        match (phase, event) {
            (PassPhase::Start, PassEvent::Clock { ticks }) => self.started(ticks),
            (PassPhase::Drain, PassEvent::Drained(outcome)) => self.quietly(
                match outcome {
                    Err(error) => PassPhase::Failed(error),
                    Ok(quiet) => if quiet && self.rearm.phase == RearmPhase::FinalDrain {
                        PassPhase::Offer
                    } else {
                        PassPhase::DrainCheck { quiet, offer: 0 }
                    },
                },
            ),
            (PassPhase::Offer, PassEvent::Clock { ticks }) => self.quietly(
                PassPhase::DrainCheck { quiet: true, offer: ticks },
            ),
            (PassPhase::DrainCheck { quiet, offer }, PassEvent::Clock { ticks }) => self.drained(
                quiet,
                offer,
                ticks,
            ),
            (PassPhase::RxCheck { left }, PassEvent::Clock { ticks }) => self.checked(
                ticks,
                PassPhase::RxRead { left },
            ),
            (PassPhase::RxRead { left }, PassEvent::Byte { byte, ticks }) => self.read(
                left,
                byte,
                ticks,
            ),
            (PassPhase::RxRead { left }, PassEvent::ReadFault) => self.quietly(
                PassPhase::Failed(HandoffError::NotEstablished),
            ),
            (PassPhase::TxCheck { left, rx_idle, byte }, PassEvent::Clock { ticks }) =>
            self.checked(ticks, PassPhase::TxWrite { left, rx_idle, byte }),
            (PassPhase::TxWrite { left, rx_idle, byte }, PassEvent::Wrote { written, ticks }) =>
            self.offered(left, rx_idle, written, ticks),
            (PassPhase::Closing { rx_idle }, PassEvent::Idle { uart_idle, ticks }) => self.closed(
                rx_idle,
                uart_idle,
                ticks,
            ),
            (PassPhase::Unsent { rx_idle }, PassEvent::Clock { ticks }) => self.closed(
                rx_idle,
                false,
                ticks,
            ),
            (PassPhase::BeginDrain, PassEvent::DrainBegun(outcome)) => self.quietly(
                match outcome {
                    Err(error) => PassPhase::Failed(error),
                    Ok(_) => PassPhase::BegunCheck,
                },
            ),
            (PassPhase::BegunCheck, PassEvent::Clock { ticks }) => self.begun(ticks),
            _ => self.quietly(phase),
        }
    }
}

/// One pass of a rearm.
#[derive(Debug, Clone, Copy, PartialEq, Eq, Structural)]
pub struct PassRun {
    pub phase: PassPhase,
}

impl PassRun {
    /// Bytes are left where one is handled.
    pub open spec fn wf(self) -> bool {
        match self.phase {
            PassPhase::RxCheck { left } => 0 < left <= BYTES_PER_PASS,
            PassPhase::RxRead { left } => 0 < left <= BYTES_PER_PASS,
            PassPhase::TxCheck { left, .. } => 0 < left <= BYTES_PER_PASS,
            PassPhase::TxWrite { left, .. } => 0 < left <= BYTES_PER_PASS,
            _ => true,
        }
    }

    /// A pass of a rearm. Without the transaction, or with all passes used up,
    /// it has failed before anything is done.
    pub fn new(rearm: &Rearm, handoff: &Handoff) -> (run: Self)
        ensures
            run.wf(),
            run.phase == match rearm@.pass_refusal(handoff@) {
                Some(error) => PassPhase::Failed(error),
                None => PassPhase::Start,
            },
    {
        match rearm.admit_pass(handoff) {
            Ok(()) => PassRun { phase: PassPhase::Start },
            Err(error) => PassRun { phase: PassPhase::Failed(error) },
        }
    }

    /// What has to be done next.
    pub fn action(&self) -> (action: PassAction)
        ensures
            action == match self.phase {
                PassPhase::Start => PassAction::ReadClock,
                PassPhase::Drain => PassAction::PollDrain,
                PassPhase::Offer => PassAction::ReadClock,
                PassPhase::DrainCheck { .. } => PassAction::ReadClock,
                PassPhase::RxCheck { .. } => PassAction::ReadClock,
                PassPhase::RxRead { .. } => PassAction::ReadByte,
                PassPhase::TxCheck { .. } => PassAction::ReadClock,
                PassPhase::TxWrite { left, rx_idle, byte } => PassAction::WriteByte(byte),
                PassPhase::Closing { .. } => PassAction::ReadIdle,
                PassPhase::Unsent { .. } => PassAction::ReadClock,
                PassPhase::BeginDrain => PassAction::BeginDrain,
                PassPhase::BegunCheck => PassAction::ReadClock,
                PassPhase::Finished { settled } => PassAction::Done { settled },
                PassPhase::Failed(error) => PassAction::Failed(error),
            },
    {
        match self.phase {
            PassPhase::Start => PassAction::ReadClock,
            PassPhase::Drain => PassAction::PollDrain,
            PassPhase::Offer => PassAction::ReadClock,
            PassPhase::DrainCheck { .. } => PassAction::ReadClock,
            PassPhase::RxCheck { .. } => PassAction::ReadClock,
            PassPhase::RxRead { .. } => PassAction::ReadByte,
            PassPhase::TxCheck { .. } => PassAction::ReadClock,
            PassPhase::TxWrite { byte, .. } => PassAction::WriteByte(byte),
            PassPhase::Closing { .. } => PassAction::ReadIdle,
            PassPhase::Unsent { .. } => PassAction::ReadClock,
            PassPhase::BeginDrain => PassAction::BeginDrain,
            PassPhase::BegunCheck => PassAction::ReadClock,
            PassPhase::Finished { settled } => PassAction::Done { settled },
            PassPhase::Failed(error) => PassAction::Failed(error),
        }
    }

    /// Go on to `phase` unless there is an error.
    fn proceed(&mut self, result: Result<(), HandoffError>, phase: PassPhase)
        ensures
            final(self).phase == match result {
                Ok(_) => phase,
                Err(error) => PassPhase::Failed(error),
            },
    {
        self.phase = match result {
            Ok(()) => phase,
            Err(error) => PassPhase::Failed(error),
        };
    }

    /// Go on with the sending side.
    fn send_more(&mut self, tx: &TxState, left: usize, rx_idle: bool)
        requires
            tx.wf(),
        ensures
            final(self).phase == match tx@.next() {
                Some(byte) => if left > 0 {
                    PassPhase::TxCheck { left, rx_idle, byte }
                } else {
                    closing(tx@, rx_idle)
                },
                None => closing(tx@, rx_idle),
            },
    {
        match tx.peek_byte() {
            Some(byte) => if left > 0 {
                self.phase = PassPhase::TxCheck { left, rx_idle, byte };
                return;
            },
            None => {},
        }
        self.close(tx, rx_idle);
    }

    /// Come to the end of the pass.
    fn close(&mut self, tx: &TxState, rx_idle: bool)
        ensures
            final(self).phase == closing(tx@, rx_idle),
    {
        self.phase = if tx.is_idle() {
            PassPhase::Closing { rx_idle }
        } else {
            PassPhase::Unsent { rx_idle }
        };
    }

    /// The UART was read.
    fn on_byte(
        &mut self,
        rearm: &mut Rearm,
        handoff: &mut Handoff,
        tx: &mut TxState,
        left: usize,
        byte: Option<u8>,
        ticks: u64,
    ) -> (events: Vec<Event>)
        requires
            old(rearm).wf(),
            old(tx).wf(),
            0 < left <= BYTES_PER_PASS,
        ensures
            final(self).wf(),
            final(rearm).wf(),
            final(tx).wf(),
            (PassStep {
                phase: final(self).phase,
                state: PassState {
                    rearm: final(rearm)@,
                    handoff: final(handoff)@,
                    tx: final(tx)@,
                },
                events: events@,
            }) == (PassState { rearm: old(rearm)@, handoff: old(handoff)@, tx: old(tx)@ }).read(
                left,
                byte,
                ticks,
            ),
    {
        proof {
            reveal(PassState::read);
        }
        let mut events: Vec<Event> = Vec::new();
        let (recorded, result) = rearm.rx_read(handoff, byte, ticks);
        match recorded {
            Some(event) => {
                events.push(event);
            },
            None => {},
        }
        let ghost first = events@;
        assert(first =~= match recorded {
            Some(event) => seq![event],
            None => Seq::empty(),
        });
        match result {
            Err(error) => {
                self.phase = PassPhase::Failed(error);
                return events;
            },
            Ok(()) => {},
        }
        if byte.is_some() && left > 1 {
            self.phase = PassPhase::RxCheck { left: left - 1 };
            return events;
        }
        match self.begin_sending(rearm, handoff, tx, byte.is_none()) {
            Some(event) => {
                events.push(event);
                assert(events@ =~= first + seq![event]);
            },
            None => {
                assert(events@ =~= first + Seq::<Event>::empty());
            },
        }
        events
    }

    /// Begin the sending side.
    fn begin_sending(
        &mut self,
        rearm: &mut Rearm,
        handoff: &mut Handoff,
        tx: &mut TxState,
        rx_idle: bool,
    ) -> (event: Option<Event>)
        requires
            old(rearm).wf(),
            old(tx).wf(),
        ensures
            final(self).wf(),
            final(rearm).wf(),
            final(tx).wf(),
            (PassStep {
                phase: final(self).phase,
                state: PassState {
                    rearm: final(rearm)@,
                    handoff: final(handoff)@,
                    tx: final(tx)@,
                },
                events: match event {
                    Some(event) => seq![event],
                    None => Seq::empty(),
                },
            }) == (PassState { rearm: old(rearm)@, handoff: old(handoff)@, tx: old(tx)@ }).sending(
                rx_idle,
            ),
    {
        proof {
            reveal(PassState::sending);
        }
        match rearm.enqueue(handoff, tx) {
            Err(error) => {
                self.phase = PassPhase::Failed(error);
                None
            },
            Ok(framed) => {
                self.send_more(tx, BYTES_PER_PASS, rx_idle);
                framed
            },
        }
    }

    /// A byte was offered to the UART.
    fn on_wrote(
        &mut self,
        rearm: &mut Rearm,
        handoff: &mut Handoff,
        tx: &mut TxState,
        left: usize,
        rx_idle: bool,
        written: bool,
        ticks: u64,
    ) -> (events: Vec<Event>)
        requires
            old(rearm).wf(),
            old(tx).wf(),
            0 < left <= BYTES_PER_PASS,
        ensures
            final(self).wf(),
            final(rearm).wf(),
            final(tx).wf(),
            (PassStep {
                phase: final(self).phase,
                state: PassState {
                    rearm: final(rearm)@,
                    handoff: final(handoff)@,
                    tx: final(tx)@,
                },
                events: events@,
            }) == (PassState { rearm: old(rearm)@, handoff: old(handoff)@, tx: old(tx)@ }).offered(
                left,
                rx_idle,
                written,
                ticks,
            ),
    {
        proof {
            reveal(PassState::offered);
        }
        let mut events: Vec<Event> = Vec::new();
        let (recorded, result) = rearm.tx_attempted(handoff, tx, written, ticks);
        match recorded {
            Some(event) => {
                events.push(event);
                assert(events@ =~= seq![event]);
            },
            None => {
                assert(events@ =~= Seq::<Event>::empty());
            },
        }
        match result {
            Err(error) => {
                self.phase = PassPhase::Failed(error);
            },
            Ok(more) => {
                if more {
                    self.send_more(tx, left - 1, rx_idle);
                } else {
                    self.close(tx, rx_idle);
                }
            },
        }
        events
    }

    /// End the pass.
    fn end(
        &mut self,
        rearm: &mut Rearm,
        handoff: &mut Handoff,
        rx_idle: bool,
        wire_idle: bool,
        ticks: u64,
    )
        requires
            old(rearm).wf(),
        ensures
            final(self).wf(),
            final(rearm).wf(),
            forall|tx: TxModel, uart_idle: bool|
                wire_idle == (tx.active is None && uart_idle) ==> (PassStep {
                    phase: final(self).phase,
                    state: PassState { rearm: final(rearm)@, handoff: final(handoff)@, tx },
                    events: Seq::empty(),
                }) == #[trigger] (PassState {
                    rearm: old(rearm)@,
                    handoff: old(handoff)@,
                    tx,
                }).closed(rx_idle, uart_idle, ticks),
    {
        proof {
            reveal(PassState::closed);
        }
        self.phase = match rearm.end_pass(handoff, rx_idle, wire_idle, ticks) {
            Err(error) => PassPhase::Failed(error),
            Ok(PassEnd::StartDrain) => PassPhase::BeginDrain,
            Ok(PassEnd::Settled(settled)) => PassPhase::Finished { settled },
        };
    }

    /// The counter was read, outside the exchange of bytes.
    fn on_clock(&mut self, rearm: &mut Rearm, handoff: &mut Handoff, tx: &TxState, ticks: u64)
        requires
            old(self).wf(),
            old(rearm).wf(),
            tx.wf(),
        ensures
            final(self).wf(),
            final(rearm).wf(),
            (PassStep {
                phase: final(self).phase,
                state: PassState { rearm: final(rearm)@, handoff: final(handoff)@, tx: tx@ },
                events: Seq::empty(),
            }) == (PassState { rearm: old(rearm)@, handoff: old(handoff)@, tx: tx@ }).step(
                old(self).phase,
                PassEvent::Clock { ticks },
            ),
    {
        proof {
            reveal(PassState::started);
            reveal(PassState::drained);
            reveal(PassState::begun);
        }
        match self.phase {
            PassPhase::Start => {
                self.phase = match rearm.begin_pass(handoff, ticks) {
                    Err(error) => PassPhase::Failed(error),
                    Ok(PassKind::Drain) => PassPhase::Drain,
                    Ok(PassKind::Exchange) => PassPhase::RxCheck { left: BYTES_PER_PASS },
                };
            },
            PassPhase::Offer => {
                self.phase = PassPhase::DrainCheck { quiet: true, offer: ticks };
            },
            PassPhase::DrainCheck { quiet, offer } => {
                let result = rearm.drain_polled(handoff, quiet, offer, ticks);
                self.proceed(result, PassPhase::Finished { settled: false });
            },
            PassPhase::RxCheck { left } => {
                let result = rearm.observe(handoff, ticks);
                self.proceed(result, PassPhase::RxRead { left });
            },
            PassPhase::TxCheck { left, rx_idle, byte } => {
                let result = rearm.observe(handoff, ticks);
                self.proceed(result, PassPhase::TxWrite { left, rx_idle, byte });
            },
            PassPhase::Unsent { rx_idle } => {
                self.end(rearm, handoff, rx_idle, false, ticks);
            },
            PassPhase::BegunCheck => {
                let result = rearm.drain_begun(handoff, ticks);
                self.proceed(result, PassPhase::Finished { settled: false });
            },
            _ => {},
        }
    }

    /// Report what was done. What is to be recorded comes back.
    pub fn on(
        &mut self,
        rearm: &mut Rearm,
        handoff: &mut Handoff,
        tx: &mut TxState,
        event: PassEvent,
    ) -> (events: Vec<Event>)
        requires
            old(self).wf(),
            old(rearm).wf(),
            old(tx).wf(),
        ensures
            final(self).wf(),
            final(rearm).wf(),
            final(tx).wf(),
            (PassStep {
                phase: final(self).phase,
                state: PassState {
                    rearm: final(rearm)@,
                    handoff: final(handoff)@,
                    tx: final(tx)@,
                },
                events: events@,
            }) == (PassState { rearm: old(rearm)@, handoff: old(handoff)@, tx: old(tx)@ }).step(
                old(self).phase,
                event,
            ),
    {
        let none: Vec<Event> = Vec::new();
        assert(none@ =~= Seq::<Event>::empty());
        match event {
            PassEvent::Clock { ticks } => {
                self.on_clock(rearm, handoff, tx, ticks);
                return none;
            },
            _ => {},
        }
        match (self.phase, event) {
            (PassPhase::Drain, PassEvent::Drained(outcome)) => {
                self.phase = match outcome {
                    Err(error) => PassPhase::Failed(error),
                    Ok(quiet) => if quiet && rearm.in_final_drain() {
                        PassPhase::Offer
                    } else {
                        PassPhase::DrainCheck { quiet, offer: 0 }
                    },
                };
            },
            (PassPhase::RxRead { left }, PassEvent::Byte { byte, ticks }) => {
                return self.on_byte(rearm, handoff, tx, left, byte, ticks);
            },
            (PassPhase::RxRead { .. }, PassEvent::ReadFault) => {
                self.phase = PassPhase::Failed(HandoffError::NotEstablished);
            },
            (PassPhase::TxWrite { left, rx_idle, .. }, PassEvent::Wrote { written, ticks }) => {
                return self.on_wrote(rearm, handoff, tx, left, rx_idle, written, ticks);
            },
            (PassPhase::Closing { rx_idle }, PassEvent::Idle { uart_idle, ticks }) => {
                proof {
                    reveal(PassState::closed);
                }
                let wire_idle = tx.is_idle() && uart_idle;
                self.end(rearm, handoff, rx_idle, wire_idle, ticks);
            },
            (PassPhase::BeginDrain, PassEvent::DrainBegun(outcome)) => {
                self.proceed(outcome, PassPhase::BegunCheck);
            },
            _ => {},
        }
        none
    }
}

/// Steps that a phase can still take.
pub open spec fn steps_left(phase: PassPhase) -> int {
    match phase {
        PassPhase::Start => 1000,
        PassPhase::Drain => 10,
        PassPhase::Offer => 9,
        PassPhase::DrainCheck { .. } => 8,
        PassPhase::RxCheck { left } => 500 + 2 * left,
        PassPhase::RxRead { left } => 499 + 2 * left,
        PassPhase::TxCheck { left, .. } => 100 + 2 * left,
        PassPhase::TxWrite { left, .. } => 99 + 2 * left,
        PassPhase::Closing { .. } => 7,
        PassPhase::Unsent { .. } => 7,
        PassPhase::BeginDrain => 6,
        PassPhase::BegunCheck => 5,
        PassPhase::Finished { .. } => 0,
        PassPhase::Failed(_) => 0,
    }
}

/// The event answers what the phase asks for.
pub open spec fn answers(phase: PassPhase, event: PassEvent) -> bool {
    match phase {
        PassPhase::Start => event is Clock,
        PassPhase::Drain => event is Drained,
        PassPhase::Offer => event is Clock,
        PassPhase::DrainCheck { .. } => event is Clock,
        PassPhase::RxCheck { .. } => event is Clock,
        PassPhase::RxRead { .. } => event is Byte || event is ReadFault,
        PassPhase::TxCheck { .. } => event is Clock,
        PassPhase::TxWrite { .. } => event is Wrote,
        PassPhase::Closing { .. } => event is Idle,
        PassPhase::Unsent { .. } => event is Clock,
        PassPhase::BeginDrain => event is DrainBegun,
        PassPhase::BegunCheck => event is Clock,
        PassPhase::Finished { .. } => false,
        PassPhase::Failed(_) => false,
    }
}

/// Law: every answer brings a pass nearer to its end, so that a pass takes a
/// bounded number of steps.
pub proof fn law_pass_ends(run: PassRun, state: PassState, event: PassEvent)
    requires
        run.wf(),
        answers(run.phase, event),
    ensures
        0 <= steps_left(state.step(run.phase, event).phase) < steps_left(run.phase) <= 1000,
{
    match (run.phase, event) {
        (PassPhase::Start, PassEvent::Clock { ticks }) => {
            reveal(PassState::started);
        },
        (PassPhase::DrainCheck { quiet, offer }, PassEvent::Clock { ticks }) => {
            reveal(PassState::drained);
        },
        (PassPhase::RxRead { left }, PassEvent::Byte { byte, ticks }) => {
            reveal(PassState::read);
            reveal(PassState::sending);
        },
        (PassPhase::TxWrite { left, rx_idle, byte }, PassEvent::Wrote { written, ticks }) => {
            reveal(PassState::offered);
        },
        (PassPhase::Closing { rx_idle }, PassEvent::Idle { uart_idle, ticks }) => {
            reveal(PassState::closed);
        },
        (PassPhase::Unsent { rx_idle }, PassEvent::Clock { ticks }) => {
            reveal(PassState::closed);
        },
        (PassPhase::BegunCheck, PassEvent::Clock { ticks }) => {
            reveal(PassState::begun);
        },
        _ => {},
    }
}

/// Bytes that can still be read from the UART in the pass.
pub open spec fn reads_left(phase: PassPhase) -> int {
    match phase {
        PassPhase::Start => BYTES_PER_PASS as int,
        PassPhase::RxCheck { left } => left as int,
        PassPhase::RxRead { left } => left as int,
        _ => 0,
    }
}

/// Bytes that can still be offered to the UART in the pass.
pub open spec fn writes_left(phase: PassPhase) -> int {
    match phase {
        PassPhase::Start => BYTES_PER_PASS as int,
        PassPhase::RxCheck { .. } => BYTES_PER_PASS as int,
        PassPhase::RxRead { .. } => BYTES_PER_PASS as int,
        PassPhase::TxCheck { left, .. } => left as int,
        PassPhase::TxWrite { left, .. } => left as int,
        _ => 0,
    }
}

/// Law: a pass reads at most [`BYTES_PER_PASS`] bytes and offers at most as
/// many: each read and each offer uses up one, and nothing gives any back.
pub proof fn law_bytes_are_bounded(run: PassRun, state: PassState, event: PassEvent)
    requires
        run.wf(),
        answers(run.phase, event),
    ensures
        ({
            let next = state.step(run.phase, event).phase;
            &&& 0 <= reads_left(next) <= reads_left(run.phase) <= BYTES_PER_PASS
            &&& 0 <= writes_left(next) <= writes_left(run.phase) <= BYTES_PER_PASS
            &&& run.phase is RxRead ==> reads_left(next) < reads_left(run.phase)
            &&& run.phase is TxWrite ==> writes_left(next) < writes_left(run.phase)
        }),
{
    match (run.phase, event) {
        (PassPhase::Start, PassEvent::Clock { ticks }) => {
            reveal(PassState::started);
        },
        (PassPhase::DrainCheck { quiet, offer }, PassEvent::Clock { ticks }) => {
            reveal(PassState::drained);
        },
        (PassPhase::RxRead { left }, PassEvent::Byte { byte, ticks }) => {
            reveal(PassState::read);
            reveal(PassState::sending);
        },
        (PassPhase::TxWrite { left, rx_idle, byte }, PassEvent::Wrote { written, ticks }) => {
            reveal(PassState::offered);
        },
        (PassPhase::Closing { rx_idle }, PassEvent::Idle { uart_idle, ticks }) => {
            reveal(PassState::closed);
        },
        (PassPhase::Unsent { rx_idle }, PassEvent::Clock { ticks }) => {
            reveal(PassState::closed);
        },
        (PassPhase::BegunCheck, PassEvent::Clock { ticks }) => {
            reveal(PassState::begun);
        },
        _ => {},
    }
}

/// The pass has seen that nothing is left to be read.
pub open spec fn saw_rx_idle(phase: PassPhase) -> bool {
    match phase {
        PassPhase::TxCheck { rx_idle, .. } => rx_idle,
        PassPhase::TxWrite { rx_idle, .. } => rx_idle,
        PassPhase::Closing { rx_idle } => rx_idle,
        PassPhase::Unsent { rx_idle } => rx_idle,
        _ => false,
    }
}

/// Law: that nothing is left to be read is taken from an empty read in this
/// very pass, and from nothing else.
pub proof fn law_rx_idle_is_observed(run: PassRun, state: PassState, event: PassEvent)
    requires
        !saw_rx_idle(run.phase),
        saw_rx_idle(state.step(run.phase, event).phase),
    ensures
        run.phase is RxRead,
        match event {
            PassEvent::Byte { byte, ticks } => byte is None,
            _ => false,
        },
{
    match (run.phase, event) {
        (PassPhase::Start, PassEvent::Clock { ticks }) => {
            reveal(PassState::started);
        },
        (PassPhase::DrainCheck { quiet, offer }, PassEvent::Clock { ticks }) => {
            reveal(PassState::drained);
        },
        (PassPhase::RxRead { left }, PassEvent::Byte { byte, ticks }) => {
            reveal(PassState::read);
            reveal(PassState::sending);
        },
        (PassPhase::TxWrite { left, rx_idle, byte }, PassEvent::Wrote { written, ticks }) => {
            reveal(PassState::offered);
        },
        (PassPhase::Closing { rx_idle }, PassEvent::Idle { uart_idle, ticks }) => {
            reveal(PassState::closed);
        },
        (PassPhase::Unsent { rx_idle }, PassEvent::Clock { ticks }) => {
            reveal(PassState::closed);
        },
        (PassPhase::BegunCheck, PassEvent::Clock { ticks }) => {
            reveal(PassState::begun);
        },
        _ => {},
    }
}

/// Law: a pass settles only with the line idle in both directions and no frame
/// half read, and never while old traffic is finished.
pub proof fn law_settled_means_idle(run: PassRun, state: PassState, event: PassEvent)
    requires
        !(run.phase is Finished),
        state.step(run.phase, event).phase == (PassPhase::Finished { settled: true }),
    ensures
        run.phase == (PassPhase::Closing { rx_idle: true }),
        match event {
            PassEvent::Idle { uart_idle, ticks } => uart_idle,
            _ => false,
        },
        state.tx.active is None,
        !state.rearm.partial,
        !state.rearm.finishing(),
{
    reveal(PassState::started);
    reveal(PassState::drained);
    reveal(PassState::read);
    reveal(PassState::sending);
    reveal(PassState::offered);
    reveal(PassState::closed);
    reveal(PassState::begun);
}

/// Law: a pass that may begin is counted, and does a step of the drain while the rearm
/// drains and an exchange of up to 64 bytes otherwise.
pub proof fn law_pass_begins(state: PassState, ticks: u64)
    requires
        state.rearm.pass_refusal(state.handoff) is None,
        state.rearm.observe_error(state.handoff, ticks) is None,
        state.rearm.passes < 1_048_576,
    ensures
        ({
            let step = state.started(ticks);
            let drains = state.rearm.phase is InitialDrain || state.rearm.phase is FinalDrain;
            &&& step.state.rearm.passes == state.rearm.passes + 1
            &&& step.state.rearm.last_ticks == ticks
            &&& step.phase == if drains {
                PassPhase::Drain
            } else {
                PassPhase::RxCheck { left: 64 }
            }
            &&& step.events.len() == 0
        }),
{
    reveal(PassState::started);
}

/// Law: a byte that the UART took is gone from the frame, even if the time is up by then;
/// one that it did not take stays.
pub proof fn law_accepted_byte_is_retired(
    state: PassState,
    left: usize,
    rx_idle: bool,
    written: bool,
    ticks: u64,
)
    ensures
        state.offered(left, rx_idle, written, ticks).state.tx == if written {
            state.tx.advanced()
        } else {
            state.tx
        },
        !written ==> state.offered(left, rx_idle, written, ticks).events.len() == 0,
        state.rearm.observe_error(state.handoff, ticks) is Some ==> state.offered(
            left,
            rx_idle,
            written,
            ticks,
        ).phase is Failed,
{
    reveal(PassState::offered);
}

/// Law: the end of a frame is recorded with its time. A handoff message counts exactly if
/// it is the one on the line, of the operation at hand; any other is recorded as stale,
/// which ends the rearm only once the old frame is finished.
pub proof fn law_completed_frame_is_recorded(
    state: PassState,
    left: usize,
    rx_idle: bool,
    ticks: u64,
    frame: HandoffFrame,
)
    requires
        state.tx.next_completion() == Some(FrameCompletion::Handoff(frame)),
        state.rearm.observe_error(state.handoff, ticks) is None,
        left > 0,
    ensures
        ({
            let step = state.offered(left, rx_idle, true, ticks);
            let current = state.handoff.spec_operation() == frame.operation
                && state.handoff.spec_started_frame() == Some(frame.message);
            &&& step.events.len() == 1
            &&& !current ==> {
                &&& step.events[0] == Event::Completed(
                    FrameCompletion::Handoff(frame),
                    ticks,
                    Err(HandoffError::Stale),
                )
                &&& step.state.handoff == state.handoff.seen(ticks)
                &&& step.phase == PassPhase::Failed(HandoffError::Stale) <==> !(
                state.rearm.phase is FinishOld)
            }
            &&& current ==> step.state.handoff == state.handoff.seen(ticks).after_sent(ticks)
        }),
{
    reveal(PassState::offered);
}

/// Law: a drain begins exactly when all frames are out and the UART has sent them, and
/// either the old traffic was being finished, or the peer is prepared, nothing arrives and
/// no frame is half read. What was half decoded is dropped.
pub proof fn law_drain_begins_on_an_idle_line(
    state: PassState,
    rx_idle: bool,
    uart_idle: bool,
    ticks: u64,
)
    requires
        state.rearm.observe_error(state.handoff, ticks) is None,
    ensures
        ({
            let step = state.closed(rx_idle, uart_idle, ticks);
            let out = state.tx.active is None && uart_idle;
            let prepared = state.handoff.phase is Draining && rx_idle && !state.rearm.partial;
            &&& step.phase is BeginDrain <==> out && (state.rearm.phase is FinishOld || prepared)
            &&& step.phase is BeginDrain ==> step.state.rearm.candidate.len() == 0
            &&& !(step.phase is BeginDrain) ==> step.phase == (PassPhase::Finished {
                settled: !(state.rearm.phase is FinishOld) && rx_idle && out
                    && !state.rearm.partial,
            })
            &&& step.state.tx == state.tx
        }),
{
    reveal(PassState::closed);
}

/// Law: the drain after the old traffic is the first one, the drain after the preparation
/// is the last one. Once the first is quiet the exchange begins; once the last is quiet the
/// session is offered for 80 ms, and the exchange goes on. Until then nothing changes.
pub proof fn law_drains_in_order(state: PassState, quiet: bool, offer: u64, ticks: u64)
    requires
        state.rearm.observe_error(state.handoff, ticks) is None,
    ensures
        state.rearm.phase is FinishOld ==> state.begun(ticks).state.rearm.phase is InitialDrain,
        state.rearm.phase is Exchange ==> state.begun(ticks).state.rearm.phase is FinalDrain,
        state.begun(ticks).phase == (PassPhase::Finished { settled: false }),
        state.rearm.phase is InitialDrain && quiet ==> {
            let step = state.drained(quiet, offer, ticks);
            &&& step.state.rearm.phase is Exchange
            &&& step.state.handoff == state.handoff.seen(ticks)
            &&& step.phase == (PassPhase::Finished { settled: false })
        },
        !quiet ==> {
            let step = state.drained(quiet, offer, ticks);
            &&& step.state.rearm.phase == state.rearm.phase
            &&& step.state.handoff == state.handoff.seen(ticks)
            &&& step.phase == (PassPhase::Finished { settled: false })
        },
        state.rearm.phase is FinalDrain && quiet && offer >= state.rearm.last_ticks
            && state.rearm.frequency * 80 <= 0xFFFF_FFFF_FFFF_FFFF
            && state.handoff.drain_offer_result(offer, state.rearm.offer_ticks() as u64) is Ok ==> {
            let step = state.drained(quiet, offer, ticks);
            &&& step.state.rearm.phase is Exchange
            &&& offer <= ticks ==> step.state.handoff == state.handoff.after_drain_offer(
                offer,
                state.rearm.offer_ticks() as u64,
            ).checked(ticks)
        },
{
    reveal(PassState::begun);
    reveal(PassState::drained);
}

/// Law: in the exchange the handoff's message goes on an idle line before anything else is
/// sent; while the old frame is finished nothing new is framed.
pub proof fn law_exchange_frames_the_message(state: PassState, rx_idle: bool)
    ensures
        state.rearm.phase is FinishOld ==> state.sending(rx_idle).state == state
            && state.sending(rx_idle).events.len() == 0,
        !(state.rearm.phase is FinishOld) && state.tx.active is None
            && state.handoff.spec_outbound() is Some && ticks_ns(
            state.rearm.last_ticks,
            state.rearm.frequency,
        ) is Ok ==> {
            let step = state.sending(rx_idle);
            let msg = state.handoff.spec_outbound()->0;
            &&& step.state.tx.active is Some
            &&& step.state.tx.active->0.wire == crate::link::codec::wire(msg)
            &&& step.state.handoff.spec_started_frame() == Some(msg)
            &&& step.events == seq![
                Event::Framed(
                    HandoffFrame { message: msg, operation: state.handoff.spec_operation() },
                ),
            ]
        },
        state.tx.active is Some ==> state.sending(rx_idle).state == state,
{
    reveal(PassState::sending);
}

/// Law: receiving ends with the first look that finds no byte, and only that counts as an
/// idle receiver; otherwise it goes on for as many bytes as are left.
pub proof fn law_receiving_ends_on_no_byte(
    state: PassState,
    left: usize,
    byte: Option<u8>,
    ticks: u64,
)
    requires
        left > 0,
    ensures
        ({
            let step = state.read(left, byte, ticks);
            &&& !(step.phase is Failed) && byte is Some && left > 1 ==> step.phase == (
            PassPhase::RxCheck { left: (left - 1) as usize })
            &&& byte is None || left == 1 ==> !(step.phase is RxCheck)
            &&& step.phase is TxCheck ==> (step.phase->TxCheck_rx_idle <==> byte is None)
            &&& step.phase is Closing ==> (step.phase->Closing_rx_idle <==> byte is None)
            &&& step.phase is Unsent ==> (step.phase->Unsent_rx_idle <==> byte is None)
        }),
{
    reveal(PassState::read);
    reveal(PassState::sending);
}

} // verus!
