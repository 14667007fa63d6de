//! Session establishment and safe-barrier correlation on the kernel side.
//!
//! One session and one transaction at a time. The platform owns draining,
//! requalification and I/O; nothing here moves a motor. Times are the caller's
//! monotonic ticks. Identifiers are unique within the life of one [`Handoff`].

use vstd::prelude::*;

use crate::link::codec::Msg;
use crate::link::tx::{fresh_frame, FrameModel, HandoffFrame, MotorDiscards, TxModel, TxState};

verus! {

#[derive(Clone, Copy, Debug, PartialEq, Eq, Structural)]
pub struct BarrierIdentity {
    pub session: u32,
    pub correlation: u64,
    pub sequence: u8,
}

impl BarrierIdentity {
    pub open spec fn spec_message(self) -> Msg {
        Msg::SafeBarrier {
            session: self.session,
            correlation: self.correlation,
            sequence: self.sequence,
        }
    }

    /// The message that asks the peer for this barrier.
    pub fn message(self) -> (msg: Msg)
        ensures
            msg == self.spec_message(),
    {
        Msg::SafeBarrier {
            session: self.session,
            correlation: self.correlation,
            sequence: self.sequence,
        }
    }
}

/// A consumed, matching acknowledgement. It cannot be made or copied outside
/// this module.
#[derive(Debug, PartialEq, Eq, Structural)]
pub struct SafeReceipt {
    identity: BarrierIdentity,
    operation: u64,
}

impl SafeReceipt {
    pub closed spec fn spec_identity(self) -> BarrierIdentity {
        self.identity
    }

    pub closed spec fn spec_operation(self) -> u64 {
        self.operation
    }

    pub fn identity(&self) -> (identity: BarrierIdentity)
        ensures
            identity == self.spec_identity(),
    {
        self.identity
    }

    pub fn operation(&self) -> (operation: u64)
        ensures
            operation == self.spec_operation(),
    {
        self.operation
    }
}

/// A consumed, matching rearm, good for one commit. It cannot be made or copied
/// outside this module.
#[derive(Debug, PartialEq, Eq, Structural)]
pub struct RearmReceipt {
    operation: u64,
    session: u32,
    received_at: u64,
}

impl RearmReceipt {
    pub closed spec fn spec_operation(self) -> u64 {
        self.operation
    }

    pub closed spec fn spec_session(self) -> u32 {
        self.session
    }

    pub closed spec fn spec_received_at(self) -> u64 {
        self.received_at
    }

    pub fn operation(&self) -> (operation: u64)
        ensures
            operation == self.spec_operation(),
    {
        self.operation
    }

    pub fn session(&self) -> (session: u32)
        ensures
            session == self.spec_session(),
    {
        self.session
    }

    pub fn received_at(&self) -> (received_at: u64)
        ensures
            received_at == self.spec_received_at(),
    {
        self.received_at
    }
}

#[derive(Clone, Copy, Debug, PartialEq, Eq, Structural)]
pub enum HandoffError {
    NotEstablished,
    Busy,
    BadIdentity,
    InvalidTimeout,
    Exhausted,
    Stale,
    TimedOut,
    ClockReversed,
    InvalidRelease,
}

/// How far the message of a transaction has got.
#[derive(Clone, Copy, Debug, PartialEq, Eq, Structural)]
pub enum Transmission {
    Pending,
    Started,
    Sent,
}

#[derive(Clone, Copy, Debug, PartialEq, Eq, Structural)]
pub struct Barrier {
    pub identity: BarrierIdentity,
    pub operation: u64,
    pub deadline: u64,
    pub last_seen: u64,
    pub tx: Transmission,
    pub acknowledged_at: Option<u64>,
}

#[derive(Clone, Copy, Debug, PartialEq, Eq, Structural)]
pub struct Offer {
    pub operation: Option<u64>,
    pub deadline: u64,
    pub last_seen: u64,
    pub tx: Transmission,
}

#[derive(Clone, Copy, Debug, PartialEq, Eq, Structural)]
pub struct PendingRearm {
    pub operation: u64,
    pub session: u32,
    pub received_at: u64,
    pub deadline: u64,
    pub last_seen: u64,
    pub issued: bool,
}

#[derive(Clone, Copy, Debug, PartialEq, Eq, Structural)]
pub enum Phase {
    /// Nothing is eligible.
    Disarmed,
    /// The peer was asked to requalify.
    Requalifying(Offer),
    /// The peer is prepared; the local line must be drained.
    Draining(Offer),
    /// A session is on offer.
    Offering(Offer),
    /// An operation-bound session is accepted and waits for its commit.
    PendingRearm(PendingRearm),
    /// A session is established; motion is permitted.
    Ready,
    /// A safe barrier is under way.
    Barrier(Barrier),
}

/// One session and one transaction. Its view is a [`HandoffModel`].
pub struct Handoff {
    phase: Phase,
    /// The last session identifier given out.
    pub last_session: u32,
    /// The last barrier correlation given out.
    pub last_correlation: u64,
}

/// The handoff as a value.
pub struct HandoffModel {
    pub phase: Phase,
    pub last_session: u32,
    pub last_correlation: u64,
}

impl View for Handoff {
    type V = HandoffModel;

    closed spec fn view(&self) -> HandoffModel {
        HandoffModel {
            phase: self.phase,
            last_session: self.last_session,
            last_correlation: self.last_correlation,
        }
    }
}

impl HandoffModel {
    pub open spec fn with_phase(self, phase: Phase) -> HandoffModel {
        HandoffModel { phase, ..self }
    }

    pub open spec fn disarmed(self) -> HandoffModel {
        self.with_phase(Phase::Disarmed)
    }

    /// Deadline of the running transaction and the last time seen in it.
    pub open spec fn bound(self) -> Option<(u64, u64)> {
        match self.phase {
            Phase::Requalifying(offer) => Some((offer.deadline, offer.last_seen)),
            Phase::Draining(offer) => Some((offer.deadline, offer.last_seen)),
            Phase::Offering(offer) => Some((offer.deadline, offer.last_seen)),
            Phase::PendingRearm(pending) => Some((pending.deadline, pending.last_seen)),
            Phase::Barrier(barrier) => Some((barrier.deadline, barrier.last_seen)),
            _ => None,
        }
    }

    /// Why `now` cannot continue the transaction.
    pub open spec fn check_error(self, now: u64) -> Option<HandoffError> {
        match self.bound() {
            Some((deadline, last_seen)) => if now < last_seen {
                Some(HandoffError::ClockReversed)
            } else if now >= deadline {
                Some(HandoffError::TimedOut)
            } else {
                None
            },
            None => None,
        }
    }

    /// The same transaction, last seen at `now`.
    pub open spec fn seen(self, now: u64) -> HandoffModel {
        self.with_phase(
            match self.phase {
                Phase::Requalifying(offer) => Phase::Requalifying(
                    Offer { last_seen: now, ..offer },
                ),
                Phase::Draining(offer) => Phase::Draining(Offer { last_seen: now, ..offer }),
                Phase::Offering(offer) => Phase::Offering(Offer { last_seen: now, ..offer }),
                Phase::PendingRearm(pending) => Phase::PendingRearm(
                    PendingRearm { last_seen: now, ..pending },
                ),
                Phase::Barrier(barrier) => Phase::Barrier(Barrier { last_seen: now, ..barrier }),
                other => other,
            },
        )
    }

    /// The state after the clock was looked at: continued, or disarmed.
    pub open spec fn checked(self, now: u64) -> HandoffModel {
        if self.check_error(now) is Some {
            self.disarmed()
        } else {
            self.seen(now)
        }
    }

    pub open spec fn spec_operation(self) -> Option<u64> {
        match self.phase {
            Phase::Requalifying(offer) => offer.operation,
            Phase::Draining(offer) => offer.operation,
            Phase::Offering(offer) => offer.operation,
            Phase::PendingRearm(pending) => Some(pending.operation),
            Phase::Barrier(barrier) => Some(barrier.operation),
            _ => None,
        }
    }

    /// The message of the running transaction and how far it has got.
    pub open spec fn transaction(self) -> Option<(Msg, Transmission)> {
        match self.phase {
            Phase::Requalifying(offer) => Some(
                (Msg::Requalify { session: self.last_session }, offer.tx),
            ),
            Phase::Offering(offer) => Some(
                (Msg::SessionOffer { session: self.last_session }, offer.tx),
            ),
            Phase::Barrier(barrier) => Some((barrier.identity.spec_message(), barrier.tx)),
            _ => None,
        }
    }

    pub open spec fn spec_outbound(self) -> Option<Msg> {
        match self.transaction() {
            Some((msg, Transmission::Pending)) => Some(msg),
            _ => None,
        }
    }

    pub open spec fn spec_started_frame(self) -> Option<Msg> {
        match self.transaction() {
            Some((msg, Transmission::Started)) => Some(msg),
            _ => None,
        }
    }

    /// The same transaction with its message at `tx`.
    pub open spec fn with_transmission(self, tx: Transmission) -> HandoffModel {
        self.with_phase(
            match self.phase {
                Phase::Requalifying(offer) => Phase::Requalifying(Offer { tx, ..offer }),
                Phase::Offering(offer) => Phase::Offering(Offer { tx, ..offer }),
                Phase::Barrier(barrier) => Phase::Barrier(Barrier { tx, ..barrier }),
                other => other,
            },
        )
    }

    /// Why no session can be reserved.
    pub open spec fn reserve_error(self, now: u64, timeout: u64) -> Option<HandoffError> {
        if self.phase != Phase::Disarmed {
            Some(HandoffError::Busy)
        } else if timeout == 0 {
            Some(HandoffError::InvalidTimeout)
        } else if now + timeout > u64::MAX || self.last_session == u32::MAX {
            Some(HandoffError::Exhausted)
        } else {
            None
        }
    }

    pub open spec fn fresh_offer(operation: Option<u64>, now: u64, timeout: u64) -> Offer {
        Offer {
            operation,
            deadline: (now + timeout) as u64,
            last_seen: now,
            tx: Transmission::Pending,
        }
    }

    /// The next session, requalifying.
    pub open spec fn requalifying(
        self,
        operation: Option<u64>,
        now: u64,
        timeout: u64,
    ) -> HandoffModel {
        HandoffModel {
            phase: Phase::Requalifying(Self::fresh_offer(operation, now, timeout)),
            last_session: (self.last_session + 1) as u32,
            ..self
        }
    }

    /// Why no barrier can begin.
    pub open spec fn begin_error(self, operation: u64, now: u64, timeout: u64) -> Option<
        HandoffError,
    > {
        match self.phase {
            Phase::Ready => if operation == 0 {
                Some(HandoffError::BadIdentity)
            } else if timeout == 0 {
                Some(HandoffError::InvalidTimeout)
            } else if now + timeout > u64::MAX || self.last_correlation == u64::MAX {
                Some(HandoffError::Exhausted)
            } else {
                None
            },
            Phase::Barrier(_) => Some(HandoffError::Busy),
            _ => Some(HandoffError::NotEstablished),
        }
    }

    /// The identity of the next barrier.
    pub open spec fn next_identity(self, sequence: u8) -> BarrierIdentity {
        BarrierIdentity {
            session: self.last_session,
            correlation: (self.last_correlation + 1) as u64,
            sequence,
        }
    }

    /// The next barrier, begun.
    pub open spec fn begun(
        self,
        operation: u64,
        sequence: u8,
        now: u64,
        timeout: u64,
    ) -> HandoffModel {
        HandoffModel {
            phase: Phase::Barrier(
                Barrier {
                    identity: self.next_identity(sequence),
                    operation,
                    deadline: (now + timeout) as u64,
                    last_seen: now,
                    tx: Transmission::Pending,
                    acknowledged_at: None,
                },
            ),
            last_correlation: (self.last_correlation + 1) as u64,
            ..self
        }
    }

    /// The state that `msg` moves a transaction to whose message was sent;
    /// `None` if it is no answer to it.
    pub open spec fn answered(self, msg: Msg, received_at: u64) -> Option<HandoffModel> {
        match (self.phase, msg) {
            (Phase::Requalifying(offer), Msg::Prepared { session }) => if offer.tx
                == Transmission::Sent && session == self.last_session {
                Some(self.with_phase(Phase::Draining(offer)))
            } else {
                None
            },
            (Phase::Offering(offer), Msg::SessionReady { session }) => if offer.tx
                == Transmission::Sent && session == self.last_session {
                Some(
                    self.with_phase(
                        match offer.operation {
                            Some(operation) => Phase::PendingRearm(
                                PendingRearm {
                                    operation,
                                    session,
                                    received_at,
                                    deadline: offer.deadline,
                                    last_seen: offer.last_seen,
                                    issued: false,
                                },
                            ),
                            None => Phase::Ready,
                        },
                    ),
                )
            } else {
                None
            },
            (Phase::Barrier(barrier), Msg::SafeAck { session, correlation, sequence }) => if barrier.tx
                == Transmission::Sent && barrier.acknowledged_at is None && barrier.identity == (
            BarrierIdentity { session, correlation, sequence }) {
                Some(
                    self.with_phase(
                        Phase::Barrier(Barrier { acknowledged_at: Some(received_at), ..barrier }),
                    ),
                )
            } else {
                None
            },
            _ => None,
        }
    }

    /// The state after `msg` arrived at `received_at`.
    pub open spec fn replied(self, msg: Msg, received_at: u64) -> HandoffModel {
        if self.check_error(received_at) is Some {
            self.disarmed()
        } else {
            match self.seen(received_at).answered(msg, received_at) {
                Some(next) => next,
                None => self.seen(received_at),
            }
        }
    }

    /// What [`Handoff::on_reply`] returns.
    pub open spec fn reply_result(self, msg: Msg, received_at: u64) -> Result<bool, HandoffError> {
        match self.check_error(received_at) {
            Some(error) => Err(error),
            None => Ok(self.seen(received_at).answered(msg, received_at) is Some),
        }
    }

    /// What [`Handoff::sent`] returns.
    pub open spec fn sent_result(self, now: u64) -> Result<(), HandoffError> {
        match self.check_error(now) {
            Some(error) => Err(error),
            None => if self.spec_started_frame() is Some {
                Ok(())
            } else {
                Err(HandoffError::Stale)
            },
        }
    }

    /// The state after the message was sent at `now`.
    pub open spec fn after_sent(self, now: u64) -> HandoffModel {
        if self.sent_result(now) is Ok {
            self.seen(now).with_transmission(Transmission::Sent)
        } else {
            self.checked(now)
        }
    }

    /// What [`Handoff::offer_after_requalification_drain`] returns.
    pub open spec fn drain_offer_result(self, now: u64, timeout: u64) -> Result<Msg, HandoffError> {
        match self.check_error(now) {
            Some(error) => Err(error),
            None => if !(self.phase is Draining) {
                Err(HandoffError::NotEstablished)
            } else if timeout == 0 {
                Err(HandoffError::InvalidTimeout)
            } else if now + timeout > u64::MAX {
                Err(HandoffError::Exhausted)
            } else {
                Ok(Msg::SessionOffer { session: self.last_session })
            },
        }
    }

    /// The state after the drain was reported done: the offer keeps the overall
    /// deadline.
    pub open spec fn after_drain_offer(self, now: u64, timeout: u64) -> HandoffModel {
        if self.drain_offer_result(now, timeout) is Ok {
            let request = self.phase->Draining_0;
            let deadline = (now + timeout) as u64;
            self.with_phase(
                Phase::Offering(
                    Offer {
                        operation: request.operation,
                        deadline: if deadline < request.deadline {
                            deadline
                        } else {
                            request.deadline
                        },
                        last_seen: now,
                        tx: Transmission::Pending,
                    },
                ),
            )
        } else {
            self.checked(now)
        }
    }

    /// A rearm receipt is there to be issued at `now`.
    pub open spec fn rearm_due(self, now: u64) -> bool {
        &&& self.check_error(now) is None
        &&& self.phase is PendingRearm
        &&& !self.phase->PendingRearm_0.issued
    }

    /// The state after a rearm receipt was asked for.
    pub open spec fn rearm_taken(self, now: u64) -> HandoffModel {
        if self.rearm_due(now) {
            self.with_phase(
                Phase::PendingRearm(
                    PendingRearm { issued: true, last_seen: now, ..self.phase->PendingRearm_0 },
                ),
            )
        } else {
            self.checked(now)
        }
    }

    /// The frame that [`Handoff::enqueue`] puts on an idle line.
    pub open spec fn outbound_frame(self) -> Option<HandoffFrame> {
        match self.spec_outbound() {
            Some(message) => Some(HandoffFrame { message, operation: self.spec_operation() }),
            None => None,
        }
    }

    /// The frame that [`Handoff::enqueue`] starts.
    pub open spec fn enqueued_frame(self, tx: TxModel) -> Option<HandoffFrame> {
        if tx.active is None {
            self.outbound_frame()
        } else {
            None
        }
    }

    /// This receipt was issued for the rearm that is pending.
    pub open spec fn rearm_matches(self, receipt: RearmReceipt) -> bool {
        match self.phase {
            Phase::PendingRearm(pending) => pending.issued && receipt.matches(pending),
            _ => false,
        }
    }

    /// The barrier that [`Handoff::take_ready`] releases at this boundary.
    pub open spec fn releasable(self, scheduled: u64) -> Option<Barrier> {
        match self.phase {
            Phase::Barrier(barrier) => match barrier.acknowledged_at {
                Some(ready) => if ready <= scheduled {
                    Some(barrier)
                } else {
                    None
                },
                None => None,
            },
            _ => None,
        }
    }

    /// Before any session.
    pub open spec fn cold() -> HandoffModel {
        HandoffModel { phase: Phase::Disarmed, last_session: 0, last_correlation: 0 }
    }
}

impl Handoff {
    pub fn new() -> (handoff: Self)
        ensures
            handoff@ == HandoffModel::cold(),
    {
        Handoff { phase: Phase::Disarmed, last_session: 0, last_correlation: 0 }
    }

    /// Offer a session. The caller has inhibited both peers, drained the line
    /// and kept it quiet.
    pub fn offer_after_drain(&mut self, now: u64, timeout: u64) -> (result: Result<
        Msg,
        HandoffError,
    >)
        ensures
            match old(self)@.reserve_error(now, timeout) {
                Some(error) => {
                    &&& result == Err::<Msg, HandoffError>(error)
                    &&& final(self)@ == old(self)@
                },
                None => {
                    &&& result == Ok::<Msg, HandoffError>(
                        Msg::SessionOffer { session: (old(self)@.last_session + 1) as u32 },
                    )
                    &&& final(self)@ == (HandoffModel {
                        phase: Phase::Offering(HandoffModel::fresh_offer(None, now, timeout)),
                        last_session: (old(self)@.last_session + 1) as u32,
                        ..old(self)@
                    })
                },
            },
    {
        let offer = match self.reserve_session(None, now, timeout) {
            Ok(offer) => offer,
            Err(error) => {
                return Err(error);
            },
        };
        self.phase = Phase::Offering(offer);
        Ok(Msg::SessionOffer { session: self.last_session })
    }

    fn reserve_session(&mut self, operation: Option<u64>, now: u64, timeout: u64) -> (result:
        Result<Offer, HandoffError>)
        ensures
            match old(self)@.reserve_error(now, timeout) {
                Some(error) => {
                    &&& result == Err::<Offer, HandoffError>(error)
                    &&& final(self)@ == old(self)@
                },
                None => {
                    &&& result == Ok::<Offer, HandoffError>(
                        HandoffModel::fresh_offer(operation, now, timeout),
                    )
                    &&& final(self)@ == (HandoffModel {
                        last_session: (old(self)@.last_session + 1) as u32,
                        ..old(self)@
                    })
                },
            },
    {
        match self.phase {
            Phase::Disarmed => {},
            _ => {
                return Err(HandoffError::Busy);
            },
        }
        if timeout == 0 {
            return Err(HandoffError::InvalidTimeout);
        }
        let deadline: u64 = match now.checked_add(timeout) {
            Some(deadline) => deadline,
            None => {
                return Err(HandoffError::Exhausted);
            },
        };
        let session: u32 = match self.last_session.checked_add(1) {
            Some(session) => session,
            None => {
                return Err(HandoffError::Exhausted);
            },
        };
        self.last_session = session;
        Ok(Offer { operation, deadline, last_seen: now, tx: Transmission::Pending })
    }

    /// Ask the peer to requalify under a new session, and drop motion that has
    /// not started. The session lasts through preparation, drain and offer.
    pub fn requalify_on_transport(&mut self, now: u64, timeout: u64, tx: &mut TxState) -> (result:
        Result<(u32, MotorDiscards), HandoffError>)
        requires
            old(tx).wf(),
        ensures
            final(tx).wf(),
            requalify_outcome(
                old(self)@,
                final(self)@,
                old(tx)@,
                final(tx)@,
                None,
                now,
                timeout,
                result,
            ),
    {
        self.requalify_with_operation(None, now, timeout, tx)
    }

    /// Requalify on behalf of a local operation, which is not zero.
    pub fn rearm_on_transport(
        &mut self,
        operation: u64,
        now: u64,
        timeout: u64,
        tx: &mut TxState,
    ) -> (result: Result<(u32, MotorDiscards), HandoffError>)
        requires
            old(tx).wf(),
        ensures
            final(tx).wf(),
            operation == 0 ==> {
                &&& result == Err::<(u32, MotorDiscards), HandoffError>(HandoffError::BadIdentity)
                &&& final(self)@ == old(self)@
                &&& final(tx)@ == old(tx)@
            },
            operation != 0 ==> requalify_outcome(
                old(self)@,
                final(self)@,
                old(tx)@,
                final(tx)@,
                Some(operation),
                now,
                timeout,
                result,
            ),
    {
        if operation == 0 {
            return Err(HandoffError::BadIdentity);
        }
        self.requalify_with_operation(Some(operation), now, timeout, tx)
    }

    fn requalify_with_operation(
        &mut self,
        operation: Option<u64>,
        now: u64,
        timeout: u64,
        tx: &mut TxState,
    ) -> (result: Result<(u32, MotorDiscards), HandoffError>)
        requires
            old(tx).wf(),
        ensures
            final(tx).wf(),
            requalify_outcome(
                old(self)@,
                final(self)@,
                old(tx)@,
                final(tx)@,
                operation,
                now,
                timeout,
                result,
            ),
    {
        let request = match self.reserve_session(operation, now, timeout) {
            Ok(request) => request,
            Err(error) => {
                return Err(error);
            },
        };
        self.phase = Phase::Requalifying(request);
        let mut discarded = tx.clear_motor();
        discarded.frame = tx.cancel_unsent().frame;
        Ok((self.last_session, discarded))
    }

    /// The peer is prepared and the local line must be drained before an offer.
    pub fn needs_local_drain(&self) -> (needed: bool)
        ensures
            needed == (self@.phase is Draining),
    {
        match self.phase {
            Phase::Draining(_) => true,
            _ => false,
        }
    }

    /// Offer the session whose preparation was acknowledged. The caller has
    /// drained the line since.
    pub fn offer_after_requalification_drain(&mut self, now: u64, timeout: u64) -> (result: Result<
        Msg,
        HandoffError,
    >)
        ensures
            result == old(self)@.drain_offer_result(now, timeout),
            final(self)@ == old(self)@.after_drain_offer(now, timeout),
    {
        match self.check(now) {
            Ok(()) => {},
            Err(error) => {
                return Err(error);
            },
        }
        let request = match self.phase {
            Phase::Draining(request) => request,
            _ => {
                return Err(HandoffError::NotEstablished);
            },
        };
        if timeout == 0 {
            return Err(HandoffError::InvalidTimeout);
        }
        let deadline: u64 = match now.checked_add(timeout) {
            Some(deadline) => deadline,
            None => {
                return Err(HandoffError::Exhausted);
            },
        };
        let bounded: u64 = if deadline < request.deadline {
            deadline
        } else {
            request.deadline
        };
        self.phase = Phase::Offering(
            Offer {
                operation: request.operation,
                deadline: bounded,
                last_seen: now,
                tx: Transmission::Pending,
            },
        );
        Ok(Msg::SessionOffer { session: self.last_session })
    }

    /// Drop all eligibility. The counters stay, so no identity is reused.
    pub fn disarm(&mut self)
        ensures
            final(self)@ == old(self)@.disarmed(),
    {
        self.phase = Phase::Disarmed;
    }

    pub fn motion_permitted(&self) -> (permitted: bool)
        ensures
            permitted == (self@.phase == Phase::Ready),
    {
        match self.phase {
            Phase::Ready => true,
            _ => false,
        }
    }

    /// The local operation of the running transaction.
    pub fn operation(&self) -> (operation: Option<u64>)
        ensures
            operation == self@.spec_operation(),
    {
        match self.phase {
            Phase::Requalifying(offer) => offer.operation,
            Phase::Draining(offer) => offer.operation,
            Phase::Offering(offer) => offer.operation,
            Phase::PendingRearm(pending) => Some(pending.operation),
            Phase::Barrier(barrier) => Some(barrier.operation),
            _ => None,
        }
    }

    /// Begin a barrier and drop motion that has not started.
    pub fn begin_on_transport(
        &mut self,
        operation: u64,
        sequence: u8,
        now: u64,
        timeout: u64,
        tx: &mut TxState,
    ) -> (result: Result<(BarrierIdentity, MotorDiscards), HandoffError>)
        requires
            old(tx).wf(),
        ensures
            final(tx).wf(),
            match old(self)@.begin_error(operation, now, timeout) {
                Some(error) => {
                    &&& result == Err::<(BarrierIdentity, MotorDiscards), HandoffError>(error)
                    &&& final(self)@ == old(self)@
                    &&& final(tx)@ == old(tx)@
                },
                None => {
                    &&& result == Ok::<(BarrierIdentity, MotorDiscards), HandoffError>(
                        (old(self)@.next_identity(sequence), motion_discards(old(tx)@)),
                    )
                    &&& final(self)@ == old(self)@.begun(operation, sequence, now, timeout)
                    &&& final(tx)@ == motion_dropped(old(tx)@)
                },
            },
    {
        let identity = match self.begin(operation, sequence, now, timeout) {
            Ok(identity) => identity,
            Err(error) => {
                return Err(error);
            },
        };
        let mut discarded = tx.clear_motor();
        discarded.frame = tx.cancel_unsent().frame;
        Ok((identity, discarded))
    }

    /// Put the pending message of the transaction on the line if that is idle.
    /// `transport_now` is in the time domain of `tx`.
    pub fn enqueue(&mut self, tx: &mut TxState, transport_now: u64) -> (result: Result<
        Option<HandoffFrame>,
        HandoffError,
    >)
        requires
            old(tx).wf(),
        ensures
            final(tx).wf(),
            result == Ok::<Option<HandoffFrame>, HandoffError>(old(self)@.enqueued_frame(old(tx)@)),
            match old(self)@.enqueued_frame(old(tx)@) {
                Some(frame) => {
                    &&& final(self)@ == old(self)@.with_transmission(Transmission::Started)
                    &&& final(tx)@ == (TxModel {
                        active: Some(
                            FrameModel {
                                handoff: Some(frame),
                                ..fresh_frame(frame.message, transport_now)
                            },
                        ),
                        ..old(tx)@
                    })
                },
                None => final(self)@ == old(self)@ && final(tx)@ == old(tx)@,
            },
    {
        match self.outbound() {
            Some(message) => {
                let frame = HandoffFrame { message, operation: self.operation() };
                if tx.start_handoff(frame, transport_now) {
                    match self.started(message) {
                        Ok(()) => {},
                        Err(error) => {
                            return Err(error);
                        },
                    }
                    return Ok(Some(frame));
                }
            },
            None => {},
        }
        Ok(None)
    }

    /// Begin a barrier for a local operation, which is not zero.
    pub fn begin(&mut self, operation: u64, sequence: u8, now: u64, timeout: u64) -> (result:
        Result<BarrierIdentity, HandoffError>)
        ensures
            match old(self)@.begin_error(operation, now, timeout) {
                Some(error) => result == Err::<BarrierIdentity, HandoffError>(error)
                    && final(self)@ == old(self)@,
                None => {
                    &&& result == Ok::<BarrierIdentity, HandoffError>(
                        old(self)@.next_identity(sequence),
                    )
                    &&& final(self)@ == old(self)@.begun(operation, sequence, now, timeout)
                },
            },
    {
        match self.phase {
            Phase::Barrier(_) => {
                return Err(HandoffError::Busy);
            },
            Phase::Ready => {},
            _ => {
                return Err(HandoffError::NotEstablished);
            },
        }
        if operation == 0 {
            return Err(HandoffError::BadIdentity);
        }
        if timeout == 0 {
            return Err(HandoffError::InvalidTimeout);
        }
        let deadline: u64 = match now.checked_add(timeout) {
            Some(deadline) => deadline,
            None => {
                return Err(HandoffError::Exhausted);
            },
        };
        let correlation: u64 = match self.last_correlation.checked_add(1) {
            Some(correlation) => correlation,
            None => {
                return Err(HandoffError::Exhausted);
            },
        };
        let identity = BarrierIdentity { session: self.last_session, correlation, sequence };
        self.last_correlation = correlation;
        self.phase = Phase::Barrier(
            Barrier {
                identity,
                operation,
                deadline,
                last_seen: now,
                tx: Transmission::Pending,
                acknowledged_at: None,
            },
        );
        Ok(identity)
    }

    /// The message to send next, after any frame already started.
    pub fn outbound(&self) -> (msg: Option<Msg>)
        ensures
            msg == self@.spec_outbound(),
    {
        match self.phase {
            Phase::Requalifying(Offer { tx: Transmission::Pending, .. }) => Some(
                Msg::Requalify { session: self.last_session },
            ),
            Phase::Offering(Offer { tx: Transmission::Pending, .. }) => Some(
                Msg::SessionOffer { session: self.last_session },
            ),
            Phase::Barrier(Barrier { tx: Transmission::Pending, identity, .. }) => Some(
                identity.message(),
            ),
            _ => None,
        }
    }

    /// The transport has taken over this message as a whole frame.
    pub fn started(&mut self, message: Msg) -> (result: Result<(), HandoffError>)
        ensures
            old(self)@.spec_outbound() == Some(message) ==> {
                &&& result is Ok
                &&& final(self)@ == old(self)@.with_transmission(Transmission::Started)
            },
            old(self)@.spec_outbound() != Some(message) ==> {
                &&& result == Err::<(), HandoffError>(HandoffError::Stale)
                &&& final(self)@ == old(self)@
            },
    {
        match self.outbound() {
            Some(expected) => {
                if expected != message {
                    return Err(HandoffError::Stale);
                }
            },
            None => {
                return Err(HandoffError::Stale);
            },
        }
        self.set_transmission(Transmission::Started);
        Ok(())
    }

    fn set_transmission(&mut self, tx: Transmission)
        ensures
            final(self)@ == old(self)@.with_transmission(tx),
    {
        match self.phase {
            Phase::Requalifying(offer) => {
                self.phase = Phase::Requalifying(Offer { tx, ..offer });
            },
            Phase::Offering(offer) => {
                self.phase = Phase::Offering(Offer { tx, ..offer });
            },
            Phase::Barrier(barrier) => {
                self.phase = Phase::Barrier(Barrier { tx, ..barrier });
            },
            _ => {},
        }
    }

    pub fn has_started_frame(&self) -> (started: bool)
        ensures
            started == (self@.spec_started_frame() is Some),
    {
        self.started_frame().is_some()
    }

    /// The message of the transaction that is on the line.
    pub fn started_frame(&self) -> (msg: Option<Msg>)
        ensures
            msg == self@.spec_started_frame(),
    {
        match self.phase {
            Phase::Requalifying(Offer { tx: Transmission::Started, .. }) => Some(
                Msg::Requalify { session: self.last_session },
            ),
            Phase::Offering(Offer { tx: Transmission::Started, .. }) => Some(
                Msg::SessionOffer { session: self.last_session },
            ),
            Phase::Barrier(Barrier { tx: Transmission::Started, identity, .. }) => Some(
                identity.message(),
            ),
            _ => None,
        }
    }

    /// All bytes of the message are in the local UART.
    pub fn sent(&mut self, now: u64) -> (result: Result<(), HandoffError>)
        ensures
            result == old(self)@.sent_result(now),
            final(self)@ == old(self)@.after_sent(now),
    {
        match self.check(now) {
            Ok(()) => {},
            Err(error) => {
                return Err(error);
            },
        }
        if !self.has_started_frame() {
            return Err(HandoffError::Stale);
        }
        self.set_transmission(Transmission::Sent);
        Ok(())
    }

    /// Take an inbound message; `true` if it answers the transaction.
    pub fn on_reply(&mut self, msg: Msg, received_at: u64) -> (result: Result<bool, HandoffError>)
        ensures
            result == old(self)@.reply_result(msg, received_at),
            final(self)@ == old(self)@.replied(msg, received_at),
    {
        match self.check(received_at) {
            Ok(()) => {},
            Err(error) => {
                return Err(error);
            },
        }
        match (self.phase, msg) {
            (Phase::Requalifying(offer), Msg::Prepared { session }) => {
                if offer.tx == Transmission::Sent && session == self.last_session {
                    self.phase = Phase::Draining(offer);
                    return Ok(true);
                }
            },
            (Phase::Offering(offer), Msg::SessionReady { session }) => {
                if offer.tx == Transmission::Sent && session == self.last_session {
                    self.phase = match offer.operation {
                        Some(operation) => Phase::PendingRearm(
                            PendingRearm {
                                operation,
                                session,
                                received_at,
                                deadline: offer.deadline,
                                last_seen: offer.last_seen,
                                issued: false,
                            },
                        ),
                        None => Phase::Ready,
                    };
                    return Ok(true);
                }
            },
            (Phase::Barrier(barrier), Msg::SafeAck { session, correlation, sequence }) => {
                if barrier.tx == Transmission::Sent && barrier.acknowledged_at.is_none()
                    && barrier.identity == (BarrierIdentity { session, correlation, sequence }) {
                    self.phase = Phase::Barrier(
                        Barrier { acknowledged_at: Some(received_at), ..barrier },
                    );
                    return Ok(true);
                }
            },
            _ => {},
        }
        Ok(false)
    }

    /// Look at the clock: a transaction that is overdue, or whose clock went
    /// back, is dropped.
    pub fn check(&mut self, now: u64) -> (result: Result<(), HandoffError>)
        ensures
            result == match old(self)@.check_error(now) {
                Some(error) => Err(error),
                None => Ok::<(), HandoffError>(()),
            },
            final(self)@ == old(self)@.checked(now),
    {
        let (deadline, last_seen): (u64, u64) = match self.phase {
            Phase::Requalifying(offer) => (offer.deadline, offer.last_seen),
            Phase::Draining(offer) => (offer.deadline, offer.last_seen),
            Phase::Offering(offer) => (offer.deadline, offer.last_seen),
            Phase::PendingRearm(pending) => (pending.deadline, pending.last_seen),
            Phase::Barrier(barrier) => (barrier.deadline, barrier.last_seen),
            _ => {
                return Ok(());
            },
        };
        if now < last_seen {
            self.disarm();
            return Err(HandoffError::ClockReversed);
        }
        if now >= deadline {
            self.disarm();
            return Err(HandoffError::TimedOut);
        }
        match self.phase {
            Phase::Requalifying(offer) => {
                self.phase = Phase::Requalifying(Offer { last_seen: now, ..offer });
            },
            Phase::Draining(offer) => {
                self.phase = Phase::Draining(Offer { last_seen: now, ..offer });
            },
            Phase::Offering(offer) => {
                self.phase = Phase::Offering(Offer { last_seen: now, ..offer });
            },
            Phase::PendingRearm(pending) => {
                self.phase = Phase::PendingRearm(PendingRearm { last_seen: now, ..pending });
            },
            Phase::Barrier(barrier) => {
                self.phase = Phase::Barrier(Barrier { last_seen: now, ..barrier });
            },
            _ => {},
        }
        Ok(())
    }

    /// Issue the receipt of an accepted, operation-bound session, once. The
    /// handoff stays inhibited until that receipt is committed.
    pub fn take_rearm_ready(&mut self, now: u64) -> (result: Result<
        Option<RearmReceipt>,
        HandoffError,
    >)
        ensures
            final(self)@ == old(self)@.rearm_taken(now),
            match old(self)@.check_error(now) {
                Some(error) => result == Err::<Option<RearmReceipt>, HandoffError>(error),
                None => if old(self)@.rearm_due(now) {
                    &&& result is Ok
                    &&& result->Ok_0 is Some
                    &&& result->Ok_0->0.matches(old(self)@.phase->PendingRearm_0)
                } else {
                    result == Ok::<Option<RearmReceipt>, HandoffError>(None)
                },
            },
    {
        match self.check(now) {
            Ok(()) => {},
            Err(error) => {
                return Err(error);
            },
        }
        match self.phase {
            Phase::PendingRearm(pending) => {
                if pending.issued {
                    return Ok(None);
                }
                self.phase = Phase::PendingRearm(PendingRearm { issued: true, ..pending });
                Ok(
                    Some(
                        RearmReceipt {
                            operation: pending.operation,
                            session: pending.session,
                            received_at: pending.received_at,
                        },
                    ),
                )
            },
            _ => Ok(None),
        }
    }

    /// Commit an issued receipt that is still current, which permits motion.
    pub fn commit_rearm(&mut self, receipt: &RearmReceipt, now: u64) -> (result: Result<
        (),
        HandoffError,
    >)
        ensures
            match old(self)@.check_error(now) {
                Some(error) => {
                    &&& result == Err::<(), HandoffError>(error)
                    &&& final(self)@ == old(self)@.disarmed()
                },
                None => if old(self)@.rearm_matches(*receipt) {
                    &&& result is Ok
                    &&& final(self)@ == old(self)@.with_phase(Phase::Ready)
                } else {
                    &&& result == Err::<(), HandoffError>(HandoffError::Stale)
                    &&& final(self)@ == old(self)@.seen(now)
                },
            },
    {
        match self.check(now) {
            Ok(()) => {},
            Err(error) => {
                return Err(error);
            },
        }
        let exact = match self.phase {
            Phase::PendingRearm(pending) => pending.issued && pending.operation
                == receipt.operation && pending.session == receipt.session && pending.received_at
                == receipt.received_at,
            _ => false,
        };
        if !exact {
            return Err(HandoffError::Stale);
        }
        self.phase = Phase::Ready;
        Ok(())
    }

    /// Release a barrier that was acknowledged no later than the scheduled time
    /// of a boundary which comes at `actual`.
    pub fn take_ready(&mut self, scheduled: u64, actual: u64) -> (result: Result<
        Option<SafeReceipt>,
        HandoffError,
    >)
        ensures
            match old(self)@.check_error(actual) {
                Some(error) => {
                    &&& result == Err::<Option<SafeReceipt>, HandoffError>(error)
                    &&& final(self)@ == old(self)@.disarmed()
                },
                None => if scheduled > actual {
                    &&& result == Err::<Option<SafeReceipt>, HandoffError>(
                        HandoffError::ClockReversed,
                    )
                    &&& final(self)@ == old(self)@.disarmed()
                } else {
                    match old(self)@.releasable(scheduled) {
                        Some(barrier) => {
                            &&& result is Ok
                            &&& result->Ok_0 is Some
                            &&& result->Ok_0->0.spec_identity() == barrier.identity
                            &&& result->Ok_0->0.spec_operation() == barrier.operation
                            &&& final(self)@ == old(self)@.with_phase(Phase::Ready)
                        },
                        None => {
                            &&& result == Ok::<Option<SafeReceipt>, HandoffError>(None)
                            &&& final(self)@ == old(self)@.seen(actual)
                        },
                    }
                },
            },
    {
        match self.check(actual) {
            Ok(()) => {},
            Err(error) => {
                return Err(error);
            },
        }
        if scheduled > actual {
            self.disarm();
            return Err(HandoffError::ClockReversed);
        }
        match self.phase {
            Phase::Barrier(barrier) => {
                let acknowledged = match barrier.acknowledged_at {
                    Some(ready) => ready <= scheduled,
                    None => false,
                };
                if acknowledged {
                    self.phase = Phase::Ready;
                    return Ok(
                        Some(
                            SafeReceipt {
                                identity: barrier.identity,
                                operation: barrier.operation,
                            },
                        ),
                    );
                }
            },
            _ => {},
        }
        Ok(None)
    }
}

impl RearmReceipt {
    /// The receipt carries the identity of this rearm.
    pub open spec fn matches(self, pending: PendingRearm) -> bool {
        &&& self.spec_operation() == pending.operation
        &&& self.spec_session() == pending.session
        &&& self.spec_received_at() == pending.received_at
    }
}

impl Default for Handoff {
    fn default() -> (handoff: Self)
        ensures
            handoff@ == HandoffModel::cold(),
    {
        Self::new()
    }
}

/// The transmit state without motion that has not started.
pub open spec fn motion_dropped(tx: TxModel) -> TxModel {
    TxModel { pending_motor: None, ..tx }.without_unsent()
}

/// What dropping that motion removes.
pub open spec fn motion_discards(tx: TxModel) -> MotorDiscards {
    MotorDiscards { pending: tx.pending_motor, frame: tx.unsent_discard() }
}

/// The effect of a requalification request: refused before anything changes, or
/// a new session with old motion dropped.
pub open spec fn requalify_outcome(
    before: HandoffModel,
    after: HandoffModel,
    tx_before: TxModel,
    tx_after: TxModel,
    operation: Option<u64>,
    now: u64,
    timeout: u64,
    result: Result<(u32, MotorDiscards), HandoffError>,
) -> bool {
    match before.reserve_error(now, timeout) {
        Some(error) => {
            &&& result == Err::<(u32, MotorDiscards), HandoffError>(error)
            &&& after == before
            &&& tx_after == tx_before
        },
        None => {
            &&& result == Ok::<(u32, MotorDiscards), HandoffError>(
                ((before.last_session + 1) as u32, motion_discards(tx_before)),
            )
            &&& after == before.requalifying(operation, now, timeout)
            &&& tx_after == motion_dropped(tx_before)
        },
    }
}

/// Law: identifiers are never reused. Every new session and every new barrier
/// gets the next number, and nothing else moves the counters.
pub proof fn law_identifiers_increase(
    h: HandoffModel,
    operation: u64,
    sequence: u8,
    now: u64,
    timeout: u64,
    msg: Msg,
)
    ensures
        h.reserve_error(now, timeout) is None ==> h.requalifying(
            Some(operation),
            now,
            timeout,
        ).last_session == h.last_session + 1,
        h.begin_error(operation, now, timeout) is None ==> h.begun(
            operation,
            sequence,
            now,
            timeout,
        ).last_correlation == h.last_correlation + 1,
        h.disarmed().last_session == h.last_session,
        h.disarmed().last_correlation == h.last_correlation,
        h.checked(now).last_session == h.last_session,
        h.checked(now).last_correlation == h.last_correlation,
        h.replied(msg, now).last_session == h.last_session,
        h.replied(msg, now).last_correlation == h.last_correlation,
        h.after_sent(now).last_session == h.last_session,
        h.after_sent(now).last_correlation == h.last_correlation,
        h.after_drain_offer(now, timeout).last_session == h.last_session,
        h.after_drain_offer(now, timeout).last_correlation == h.last_correlation,
{
}

/// Law: no inbound message permits motion, except the acceptance of a session
/// that was offered for no operation and whose offer was sent.
pub proof fn law_reply_permits_motion_only_for_offer(h: HandoffModel, msg: Msg, at: u64)
    requires
        h.phase != Phase::Ready,
        h.replied(msg, at).phase == Phase::Ready,
    ensures
        msg == (Msg::SessionReady { session: h.last_session }),
        h.phase is Offering,
        h.phase->Offering_0.tx == Transmission::Sent,
        h.phase->Offering_0.operation is None,
        h.check_error(at) is None,
{
}

/// Law: a disarmed handoff stays disarmed whatever arrives and whenever the
/// clock is looked at.
pub proof fn law_disarmed_ignores_replies(h: HandoffModel, msg: Msg, at: u64)
    requires
        h.phase == Phase::Disarmed,
    ensures
        h.replied(msg, at) == h,
        h.reply_result(msg, at) == Ok::<bool, HandoffError>(false),
        h.checked(at) == h,
        h.spec_outbound() is None,
        h.after_sent(at) == h,
{
}

/// Law: at or after its deadline no transaction survives any event.
pub proof fn law_deadline_disarms(h: HandoffModel, msg: Msg, now: u64, timeout: u64)
    requires
        match h.bound() {
            Some((deadline, _)) => now >= deadline,
            None => false,
        },
    ensures
        h.checked(now) == h.disarmed(),
        h.replied(msg, now) == h.disarmed(),
        h.after_sent(now) == h.disarmed(),
        h.after_drain_offer(now, timeout) == h.disarmed(),
{
}

/// Law: a clock that runs back ends the transaction, at whatever event it shows.
pub proof fn law_reversed_clock_disarms(h: HandoffModel, msg: Msg, now: u64, timeout: u64)
    requires
        match h.bound() {
            Some((_, last_seen)) => now < last_seen,
            None => false,
        },
    ensures
        h.checked(now) == h.disarmed(),
        h.replied(msg, now) == h.disarmed(),
        h.after_sent(now) == h.disarmed(),
        h.after_drain_offer(now, timeout) == h.disarmed(),
{
}

/// Law: a rearm receipt is issued once; asking again gives none.
pub proof fn law_rearm_receipt_once(h: HandoffModel, first: u64, second: u64)
    ensures
        h.rearm_due(first) ==> !h.rearm_taken(first).rearm_due(second),
{
}

/// Law: a stopped, expired or never issued rearm cannot be committed, whatever
/// receipt is shown.
pub proof fn law_commit_needs_issued_rearm(h: HandoffModel, receipt: RearmReceipt)
    ensures
        !h.disarmed().rearm_matches(receipt),
        h.phase is PendingRearm && !h.phase->PendingRearm_0.issued ==> !h.rearm_matches(receipt),
        !h.with_phase(Phase::Ready).rearm_matches(receipt),
{
}

/// Law: a barrier that is begun, sent and acknowledged within its time is
/// released at the first boundary scheduled no earlier than the
/// acknowledgement, and not before; motion stays forbidden until then.
pub proof fn law_barrier_completes(
    h: HandoffModel,
    operation: u64,
    sequence: u8,
    begun_at: u64,
    timeout: u64,
    sent_at: u64,
    acked_at: u64,
    scheduled: u64,
)
    requires
        h.begin_error(operation, begun_at, timeout) is None,
        begun_at <= sent_at <= acked_at < begun_at + timeout,
    ensures
        ({
            let identity = h.next_identity(sequence);
            let begun = h.begun(operation, sequence, begun_at, timeout);
            let started = begun.with_transmission(Transmission::Started);
            let sent = started.after_sent(sent_at);
            let ack = Msg::SafeAck {
                session: identity.session,
                correlation: identity.correlation,
                sequence,
            };
            let acked = sent.replied(ack, acked_at);
            &&& begun.spec_outbound() == Some(identity.spec_message())
            &&& started.sent_result(sent_at) is Ok
            &&& sent.reply_result(ack, acked_at) == Ok::<bool, HandoffError>(true)
            &&& acked.phase != Phase::Ready
            &&& acked.releasable(scheduled) is Some <==> acked_at <= scheduled
            &&& acked_at <= scheduled ==> acked.releasable(scheduled)->0.identity == identity
            &&& acked_at <= scheduled ==> acked.releasable(scheduled)->0.operation == operation
        }),
{
}

/// Law: an acknowledgement that was already taken is not taken again.
pub proof fn law_ack_is_consumed_once(h: HandoffModel, msg: Msg, first: u64, second: u64)
    requires
        h.phase is Barrier,
        h.reply_result(msg, first) == Ok::<bool, HandoffError>(true),
        h.replied(msg, first).check_error(second) is None,
    ensures
        h.replied(msg, first).reply_result(msg, second) == Ok::<bool, HandoffError>(false),
{
}

/// Law: only the exact answer to a message that was sent moves a transaction: the
/// preparation and the acceptance of the current session, and the acknowledgement of
/// the barrier with the same session, correlation and number. Any other message leaves
/// everything but the time as it was.
pub proof fn law_only_the_exact_answer_counts(h: HandoffModel, msg: Msg, at: u64)
    requires
        h.check_error(at) is None,
    ensures
        ({
            let exact = match h.phase {
                Phase::Requalifying(offer) => offer.tx is Sent && msg == (Msg::Prepared {
                    session: h.last_session,
                }),
                Phase::Offering(offer) => offer.tx is Sent && msg == (Msg::SessionReady {
                    session: h.last_session,
                }),
                Phase::Barrier(barrier) => barrier.tx is Sent && barrier.acknowledged_at is None
                    && msg == (Msg::SafeAck {
                    session: barrier.identity.session,
                    correlation: barrier.identity.correlation,
                    sequence: barrier.identity.sequence,
                }),
                _ => false,
            };
            &&& h.reply_result(msg, at) == Ok::<bool, HandoffError>(exact)
            &&& !exact ==> h.replied(msg, at) == h.seen(at)
            &&& exact && h.phase is Requalifying ==> h.replied(msg, at).phase is Draining
            &&& exact && h.phase is Offering ==> h.replied(msg, at).phase is Ready || h.replied(
                msg,
                at,
            ).phase is PendingRearm
            &&& exact && h.phase is Barrier ==> match h.replied(msg, at).phase {
                Phase::Barrier(barrier) => barrier.acknowledged_at == Some(at),
                _ => false,
            }
        }),
{
}

/// Law: a transaction goes on exactly from the time it was last seen until before its
/// deadline; without one any time will do. An earlier time is a clock that went back,
/// and a later one a missed deadline.
pub proof fn law_time_bounds_a_transaction(h: HandoffModel, now: u64)
    ensures
        match h.bound() {
            Some((deadline, last_seen)) => {
                &&& h.check_error(now) is None <==> last_seen <= now < deadline
                &&& h.check_error(now) == Some(HandoffError::ClockReversed) <==> now < last_seen
                &&& h.check_error(now) == Some(HandoffError::TimedOut) <==> last_seen <= now
                    && deadline <= now
                &&& last_seen <= now < deadline ==> h.checked(now).bound() == Some((deadline, now))
            },
            None => h.check_error(now) is None && h.checked(now) == h,
        },
        h.bound() is None <==> h.phase is Disarmed || h.phase is Ready,
        h.phase is Requalifying || h.phase is Draining || h.phase is Offering ==> ({
            let offer = match h.phase {
                Phase::Requalifying(offer) => offer,
                Phase::Draining(offer) => offer,
                Phase::Offering(offer) => offer,
                _ => arbitrary(),
            };
            h.bound() == Some((offer.deadline, offer.last_seen)) && h.spec_operation()
                == offer.operation
        }),
        h.phase is Barrier ==> h.bound() == Some(
            (h.phase->Barrier_0.deadline, h.phase->Barrier_0.last_seen),
        ) && h.spec_operation() == Some(h.phase->Barrier_0.operation),
        h.phase is PendingRearm ==> h.bound() == Some(
            (h.phase->PendingRearm_0.deadline, h.phase->PendingRearm_0.last_seen),
        ) && h.spec_operation() == Some(h.phase->PendingRearm_0.operation),
{
}

/// Law: each phase has its own message, for the current session or the barrier's
/// identity. It is to be sent while it is pending and on the line while it is started;
/// the other phases have none.
pub proof fn law_phase_has_its_message(h: HandoffModel)
    ensures
        match h.phase {
            Phase::Requalifying(offer) => {
                let msg = Msg::Requalify { session: h.last_session };
                &&& h.spec_outbound() == Some(msg) <==> offer.tx is Pending
                &&& h.spec_started_frame() == Some(msg) <==> offer.tx is Started
                &&& h.spec_outbound() is Some <==> offer.tx is Pending
                &&& h.spec_started_frame() is Some <==> offer.tx is Started
            },
            Phase::Offering(offer) => {
                let msg = Msg::SessionOffer { session: h.last_session };
                &&& h.spec_outbound() == Some(msg) <==> offer.tx is Pending
                &&& h.spec_started_frame() == Some(msg) <==> offer.tx is Started
                &&& h.spec_outbound() is Some <==> offer.tx is Pending
                &&& h.spec_started_frame() is Some <==> offer.tx is Started
            },
            Phase::Barrier(barrier) => {
                let msg = Msg::SafeBarrier {
                    session: barrier.identity.session,
                    correlation: barrier.identity.correlation,
                    sequence: barrier.identity.sequence,
                };
                &&& h.spec_outbound() == Some(msg) <==> barrier.tx is Pending
                &&& h.spec_started_frame() == Some(msg) <==> barrier.tx is Started
                &&& h.spec_outbound() is Some <==> barrier.tx is Pending
                &&& h.spec_started_frame() is Some <==> barrier.tx is Started
            },
            _ => h.spec_outbound() is None && h.spec_started_frame() is None,
        },
{
}

/// Law: a session is reserved only when nothing is under way, for a time that is not
/// zero and has an end, and while there are numbers left; a barrier only in a session,
/// for an operation, and with the same conditions on time and numbers.
pub proof fn law_what_can_begin(h: HandoffModel, operation: u64, now: u64, timeout: u64)
    ensures
        h.reserve_error(now, timeout) is None <==> h.phase is Disarmed && timeout > 0 && now
            + timeout <= 0xFFFF_FFFF_FFFF_FFFF && h.last_session < 0xFFFF_FFFF,
        !(h.phase is Disarmed) <==> h.reserve_error(now, timeout) == Some(HandoffError::Busy),
        h.phase is Disarmed && timeout == 0 <==> h.reserve_error(now, timeout) == Some(
            HandoffError::InvalidTimeout,
        ),
        h.begin_error(operation, now, timeout) is None <==> h.phase is Ready && operation > 0
            && timeout > 0 && now + timeout <= 0xFFFF_FFFF_FFFF_FFFF && h.last_correlation
            < 0xFFFF_FFFF_FFFF_FFFF,
        h.phase is Barrier <==> h.begin_error(operation, now, timeout) == Some(HandoffError::Busy),
        !(h.phase is Barrier) && !(h.phase is Ready) <==> h.begin_error(operation, now, timeout)
            == Some(HandoffError::NotEstablished),
        h.phase is Ready && operation == 0 <==> h.begin_error(operation, now, timeout) == Some(
            HandoffError::BadIdentity,
        ),
        h.phase is Ready && operation > 0 && timeout == 0 <==> h.begin_error(
            operation,
            now,
            timeout,
        ) == Some(HandoffError::InvalidTimeout),
{
}

/// Law: a rearm goes all the way. Its request, preparation, drain, offer and acceptance
/// each come in time, and only then a receipt is issued that names the operation, the
/// session and the time of acceptance. Before the commit motion is not permitted.
pub proof fn law_rearm_completes(
    h: HandoffModel,
    operation: u64,
    timeout: u64,
    offer_timeout: u64,
    t: Seq<u64>,
)
    requires
        t.len() == 7,
        h.reserve_error(t[0], timeout) is None,
        offer_timeout > 0,
        t[0] <= t[1] <= t[2] <= t[3] <= t[4] <= t[5] <= t[6],
        t[6] < t[0] + timeout,
        t[6] < t[3] + offer_timeout,
        t[3] + offer_timeout <= 0xFFFF_FFFF_FFFF_FFFF,
    ensures
        ({
            let session = (h.last_session + 1) as u32;
            let asked = h.requalifying(Some(operation), t[0], timeout);
            let sent = asked.with_transmission(Transmission::Started).after_sent(t[1]);
            let prepared = sent.replied(Msg::Prepared { session }, t[2]);
            let offered = prepared.after_drain_offer(t[3], offer_timeout);
            let out = offered.with_transmission(Transmission::Started).after_sent(t[4]);
            let ready = out.replied(Msg::SessionReady { session }, t[5]);
            &&& asked.spec_outbound() == Some(Msg::Requalify { session })
            &&& prepared.phase is Draining
            &&& prepared.drain_offer_result(t[3], offer_timeout) == Ok::<Msg, HandoffError>(
                Msg::SessionOffer { session },
            )
            &&& offered.spec_outbound() == Some(Msg::SessionOffer { session })
            &&& offered.spec_operation() == Some(operation)
            &&& offered.bound() == Some(
                (
                    if t[3] + offer_timeout < t[0] + timeout {
                        (t[3] + offer_timeout) as u64
                    } else {
                        (t[0] + timeout) as u64
                    },
                    t[3],
                ),
            )
            &&& ready.rearm_due(t[6])
            &&& ready.phase->PendingRearm_0.operation == operation
            &&& ready.phase->PendingRearm_0.session == session
            &&& ready.phase->PendingRearm_0.received_at == t[5]
            &&& !(asked.phase is Ready) && !(sent.phase is Ready) && !(prepared.phase is Ready)
                && !(offered.phase is Ready) && !(out.phase is Ready) && !(ready.phase is Ready)
        }),
{
}

/// Law: a barrier carries the number of its frame, the current session and the next
/// correlation; its time runs from its beginning.
pub proof fn law_barrier_identity(h: HandoffModel, operation: u64, sequence: u8, now: u64, t: u64)
    requires
        h.begin_error(operation, now, t) is None,
    ensures
        h.next_identity(sequence).sequence == sequence,
        h.next_identity(sequence).session == h.last_session,
        h.next_identity(sequence).correlation == h.last_correlation + 1,
        h.begun(operation, sequence, now, t).bound() == Some(((now + t) as u64, now)),
        h.begun(operation, sequence, now, t).spec_operation() == Some(operation),
{
}

/// Law: dropping motion leaves no pair waiting and no frame that has put nothing on the
/// wire; a frame that has, and the duties on the wire, stay. What is dropped is
/// reported.
pub proof fn law_motion_is_dropped(tx: TxModel)
    ensures
        motion_dropped(tx).pending_motor is None,
        motion_dropped(tx).last_motor_on_wire == tx.last_motor_on_wire,
        tx.active is Some && tx.active->0.sent > 0 ==> motion_dropped(tx).active == tx.active,
        tx.active is Some && tx.active->0.sent == 0 ==> motion_dropped(tx).active is None,
        motion_discards(tx).pending == tx.pending_motor,
        motion_discards(tx).frame == if tx.active is Some && tx.active->0.sent == 0 {
            tx.active->0.motor
        } else {
            None
        },
{
}

/// Law: a receipt fits a rearm exactly if operation, session and time of acceptance are
/// its own.
pub proof fn law_receipt_fits(h: HandoffModel, receipt: RearmReceipt)
    ensures
        h.rearm_matches(receipt) <==> match h.phase {
            Phase::PendingRearm(pending) => {
                &&& pending.issued
                &&& receipt.spec_operation() == pending.operation
                &&& receipt.spec_session() == pending.session
                &&& receipt.spec_received_at() == pending.received_at
            },
            _ => false,
        },
{
}

} // verus!
