//! The way to the actuators. Every request is decided by a policy monitor, and
//! what it decided is applied or queued as one complete motor pair. The monitor
//! and the clocks belong to the embedding program: it performs the
//! [`PairAction`]s and reports back with [`PairEvent`]s.

use vstd::prelude::*;

use crate::arch::mm::Platform;
use crate::link::tx::{MotorDiscards, MotorOrigin};
use crate::platform::control_link::{motor_side, wheel_of, ControlLink, LinkModel};
use crate::platform::gpio::{Rp1Gpio, NUM_PINS};
use crate::platform::mmio::RegOp;

verus! {

/// What a channel drives.
#[derive(Debug, Clone, Copy, PartialEq, Eq, Structural)]
pub enum ActuationKind {
    PwmDuty,
    GpioLevel,
}

/// One actuator.
#[derive(Debug, Clone, Copy, PartialEq, Eq, Structural)]
pub struct ChannelId {
    pub kind: ActuationKind,
    pub chip: u8,
    pub channel: u8,
}

/// A value asked of an actuator.
#[derive(Debug, Clone, Copy, PartialEq, Eq, Structural)]
pub struct ActuationRequest {
    pub ch: ChannelId,
    pub value: u32,
}

/// Whose authority a request has.
#[derive(Debug, Clone, Copy, PartialEq, Eq, Structural)]
pub enum Authority {
    Learned,
    Safety,
    Operator,
}

/// Whom a request is recorded for.
#[derive(Debug, Clone, Copy, PartialEq, Eq, Structural)]
pub enum AuditSource {
    LearnedBehavior,
    ManagedControl,
    Operator,
    Watchdog,
}

/// What an operator asks of the emergency stop.
#[derive(Debug, Clone, Copy, PartialEq, Eq, Structural)]
pub enum EstopAction {
    Trigger,
    Release,
}

/// What the monitor decided on a motor pair.
#[derive(Debug, Clone, Copy, PartialEq, Eq, Structural)]
pub enum MotorPairDecision {
    Allow { left: i16, right: i16 },
    /// Within limits only.
    Clamp { left: i16, right: i16 },
    /// Policy intervened.
    Safe { left: i16, right: i16 },
}

impl MotorPairDecision {
    /// The pair and the code: zero if motion goes ahead.
    pub open spec fn applied(self) -> (i16, i16, i64) {
        match self {
            MotorPairDecision::Allow { left, right } => (left, right, 0),
            MotorPairDecision::Clamp { left, right } => (left, right, 0),
            MotorPairDecision::Safe { left, right } => (left, right, -1i64),
        }
    }

    pub fn apply(self) -> (applied: (i16, i16, i64))
        ensures
            applied == self.applied(),
    {
        match self {
            MotorPairDecision::Allow { left, right } => (left, right, 0),
            MotorPairDecision::Clamp { left, right } => (left, right, 0),
            MotorPairDecision::Safe { left, right } => (left, right, -1),
        }
    }
}

/// An actuator and the value that makes it safe.
#[derive(Debug, Clone, Copy, PartialEq, Eq, Structural)]
pub struct SafeDrive {
    pub channel: ChannelId,
    pub safe_value: u32,
}

/// Whether a PWM channel belongs to the motor link. `reserved`: it is set aside
/// for local output.
pub fn is_motor_channel(platform: Platform, chip: u8, channel: u8, reserved: bool) -> (is: bool)
    ensures
        is == (platform == Platform::Rpi5 && wheel_of(chip, channel, reserved) is Some),
{
    match platform {
        Platform::Rpi5 => motor_side(chip, channel, reserved).is_some(),
        Platform::Virt => false,
    }
}

// ---------------------------------------------------------------------------
// Motor pairs
// ---------------------------------------------------------------------------

/// How a motor pair fared.
#[derive(Debug, Clone, Copy, PartialEq, Eq, Structural)]
pub enum MotorPairSubmissionOutcome {
    Queued,
    OwnershipRejected,
    DeadlineExpired,
    ClockReversed,
    QueueFailed,
}

/// The monitor's decision and what became of the pair here. It says nothing of
/// the other end.
#[derive(Debug, Clone, Copy, PartialEq, Eq, Structural)]
pub struct MotorPairSubmission {
    pub decision: Option<MotorPairDecision>,
    pub outcome: MotorPairSubmissionOutcome,
}

/// Who submits a pair.
#[derive(Debug, Clone, Copy, PartialEq, Eq, Structural)]
pub enum MotorPairCaller {
    Ordinary { authority: Authority, source: AuditSource },
    /// The managed program, between two times.
    Managed { not_before_ticks: u64, deadline_ticks: u64 },
}

/// A pair of the managed program.
#[derive(Debug, Clone, Copy, PartialEq, Eq, Structural)]
pub struct ManagedMotorPair {
    pub left: i16,
    pub right: i16,
}

impl MotorPairCaller {
    pub open spec fn managed(self) -> bool {
        self is Managed
    }

    pub open spec fn authority(self) -> Authority {
        match self {
            MotorPairCaller::Ordinary { authority, source } => authority,
            MotorPairCaller::Managed { .. } => Authority::Learned,
        }
    }

    pub open spec fn source(self) -> AuditSource {
        match self {
            MotorPairCaller::Ordinary { authority, source } => source,
            MotorPairCaller::Managed { .. } => AuditSource::ManagedControl,
        }
    }

    fn is_managed(&self) -> (managed: bool)
        ensures
            managed == self.managed(),
    {
        match self {
            MotorPairCaller::Managed { .. } => true,
            MotorPairCaller::Ordinary { .. } => false,
        }
    }
}

/// What has to be done next for a pair.
#[derive(Debug, Clone, Copy, PartialEq, Eq, Structural)]
pub enum PairAction {
    /// Read the clock of the policy.
    ReadPolicyClock,
    /// Read the clock of the deadlines.
    ReadTicks,
    /// Keep the monitor's state of the pair and let it decide.
    Decide { left: i32, right: i32, authority: Authority, source: AuditSource, now_ns: u64 },
    /// Queue what was decided.
    Enqueue { decision: MotorPairDecision },
    /// Give the monitor back the state that was kept.
    Restore,
    Done { submission: MotorPairSubmission },
}

/// What was done.
#[derive(Debug, Clone, Copy, PartialEq, Eq, Structural)]
pub enum PairEvent {
    PolicyClock { now_ns: u64 },
    Ticks { now: u64 },
    Decided { decision: MotorPairDecision },
    Enqueued { accepted: bool },
    Restored,
}

/// Where the submission of a pair stands.
#[allow(inconsistent_fields)]
#[derive(Debug, Clone, Copy, PartialEq, Eq, Structural)]
pub enum PairPhase {
    Clock,
    /// Before the decision.
    FirstTicks { now_ns: u64 },
    Deciding { now_ns: u64, started: Option<u64> },
    /// After the decision.
    SecondTicks { decision: MotorPairDecision, started: u64 },
    Queueing { decision: MotorPairDecision },
    Restoring { decision: MotorPairDecision, outcome: MotorPairSubmissionOutcome },
    Finished { submission: MotorPairSubmission },
}

/// The submission of one motor pair.
#[derive(Debug, Clone, Copy, PartialEq, Eq, Structural)]
pub struct PairRun {
    pub left: i32,
    pub right: i32,
    pub caller: MotorPairCaller,
    pub phase: PairPhase,
}

/// Why a time is not within bounds.
pub open spec fn tick_fault(now: u64, from: u64, end: u64) -> Option<MotorPairSubmissionOutcome> {
    if now < from {
        Some(MotorPairSubmissionOutcome::ClockReversed)
    } else if now >= end {
        Some(MotorPairSubmissionOutcome::DeadlineExpired)
    } else {
        None
    }
}

fn check_ticks(now: u64, from: u64, end: u64) -> (fault: Option<MotorPairSubmissionOutcome>)
    ensures
        fault == tick_fault(now, from, end),
{
    if now < from {
        Some(MotorPairSubmissionOutcome::ClockReversed)
    } else if now >= end {
        Some(MotorPairSubmissionOutcome::DeadlineExpired)
    } else {
        None
    }
}

pub open spec fn finished(
    decision: Option<MotorPairDecision>,
    outcome: MotorPairSubmissionOutcome,
) -> PairPhase {
    PairPhase::Finished { submission: MotorPairSubmission { decision, outcome } }
}

impl PairRun {
    /// The phase after an event. An event that was not asked for changes nothing.
    pub open spec fn next_phase(self, event: PairEvent) -> PairPhase {
        match (self.phase, event) {
            (PairPhase::Clock, PairEvent::PolicyClock { now_ns }) => if self.caller.managed() {
                PairPhase::FirstTicks { now_ns }
            } else {
                PairPhase::Deciding { now_ns, started: None }
            },
            (PairPhase::FirstTicks { now_ns }, PairEvent::Ticks { now }) => match self.caller {
                MotorPairCaller::Managed { not_before_ticks, deadline_ticks } => match tick_fault(
                    now,
                    not_before_ticks,
                    deadline_ticks,
                ) {
                    Some(outcome) => finished(None, outcome),
                    None => PairPhase::Deciding { now_ns, started: Some(now) },
                },
                MotorPairCaller::Ordinary { .. } => self.phase,
            },
            (PairPhase::Deciding { now_ns, started }, PairEvent::Decided { decision }) =>
            match started {
                Some(started) => PairPhase::SecondTicks { decision, started },
                None => PairPhase::Queueing { decision },
            },
            (PairPhase::SecondTicks { decision, started }, PairEvent::Ticks { now }) =>
            match self.caller {
                MotorPairCaller::Managed { not_before_ticks, deadline_ticks } => match tick_fault(
                    now,
                    started,
                    deadline_ticks,
                ) {
                    Some(outcome) => PairPhase::Restoring { decision, outcome },
                    None => PairPhase::Queueing { decision },
                },
                MotorPairCaller::Ordinary { .. } => self.phase,
            },
            (PairPhase::Queueing { decision }, PairEvent::Enqueued { accepted }) => if accepted {
                finished(Some(decision), MotorPairSubmissionOutcome::Queued)
            } else if self.caller.managed() || !(decision is Safe) {
                PairPhase::Restoring {
                    decision,
                    outcome: MotorPairSubmissionOutcome::QueueFailed,
                }
            } else {
                finished(Some(decision), MotorPairSubmissionOutcome::QueueFailed)
            },
            (PairPhase::Restoring { decision, outcome }, PairEvent::Restored) => finished(
                Some(decision),
                outcome,
            ),
            _ => self.phase,
        }
    }

    /// What the phase asks for.
    pub open spec fn asks(self) -> PairAction {
        match self.phase {
            PairPhase::Clock => PairAction::ReadPolicyClock,
            PairPhase::FirstTicks { .. } => PairAction::ReadTicks,
            PairPhase::Deciding { now_ns, started } => PairAction::Decide {
                left: self.left,
                right: self.right,
                authority: self.caller.authority(),
                source: self.caller.source(),
                now_ns,
            },
            PairPhase::SecondTicks { .. } => PairAction::ReadTicks,
            PairPhase::Queueing { decision } => PairAction::Enqueue { decision },
            PairPhase::Restoring { .. } => PairAction::Restore,
            PairPhase::Finished { submission } => PairAction::Done { submission },
        }
    }

    /// The event answers the action.
    pub open spec fn answers(action: PairAction, event: PairEvent) -> bool {
        match action {
            PairAction::ReadPolicyClock => event is PolicyClock,
            PairAction::ReadTicks => event is Ticks,
            PairAction::Decide { .. } => event is Decided,
            PairAction::Enqueue { .. } => event is Enqueued,
            PairAction::Restore => event is Restored,
            PairAction::Done { .. } => false,
        }
    }

    /// Only the managed program reads the clock of the deadlines, and what it
    /// read was within its bounds.
    pub open spec fn wf(self) -> bool {
        match self.caller {
            MotorPairCaller::Managed { not_before_ticks, deadline_ticks } => match self.phase {
                PairPhase::Deciding { now_ns, started } => match started {
                    Some(started) => not_before_ticks <= started < deadline_ticks,
                    None => false,
                },
                PairPhase::SecondTicks { decision, started } => not_before_ticks <= started
                    < deadline_ticks,
                _ => true,
            },
            MotorPairCaller::Ordinary { .. } => match self.phase {
                PairPhase::FirstTicks { .. } => false,
                PairPhase::SecondTicks { .. } => false,
                PairPhase::Deciding { now_ns, started } => started is None,
                _ => true,
            },
        }
    }

    /// A submission at its beginning: over at once for the wrong owner.
    pub open spec fn begun(
        managed_owned: bool,
        left: i32,
        right: i32,
        caller: MotorPairCaller,
    ) -> PairRun {
        PairRun {
            left,
            right,
            caller,
            phase: if managed_owned == caller.managed() {
                PairPhase::Clock
            } else {
                finished(None, MotorPairSubmissionOutcome::OwnershipRejected)
            },
        }
    }

    /// Begin the submission of a pair. While the wheels are owned by the managed
    /// program only it may submit, and only then.
    pub fn begin(managed_owned: bool, left: i32, right: i32, caller: MotorPairCaller) -> (run: Self)
        ensures
            run.wf(),
            run == PairRun::begun(managed_owned, left, right, caller),
    {
        let phase = if managed_owned == caller.is_managed() {
            PairPhase::Clock
        } else {
            PairPhase::Finished {
                submission: MotorPairSubmission {
                    decision: None,
                    outcome: MotorPairSubmissionOutcome::OwnershipRejected,
                },
            }
        };
        PairRun { left, right, caller, phase }
    }

    /// Begin the submission of a pair of the managed program. Without an origin it
    /// is refused.
    pub fn begin_managed(
        managed_owned: bool,
        pair: ManagedMotorPair,
        origin: Option<MotorOrigin>,
        not_before_ticks: u64,
        deadline_ticks: u64,
    ) -> (run: Self)
        ensures
            run.wf(),
            run == PairRun::begun(
                managed_owned && origin is Some,
                pair.left as i32,
                pair.right as i32,
                MotorPairCaller::Managed { not_before_ticks, deadline_ticks },
            ),
    {
        PairRun::begin(
            managed_owned && origin.is_some(),
            pair.left as i32,
            pair.right as i32,
            MotorPairCaller::Managed { not_before_ticks, deadline_ticks },
        )
    }

    /// What has to be done next.
    pub fn action(&self) -> (action: PairAction)
        ensures
            action == self.asks(),
    {
        match self.phase {
            PairPhase::Clock => PairAction::ReadPolicyClock,
            PairPhase::FirstTicks { .. } => PairAction::ReadTicks,
            PairPhase::Deciding { now_ns, .. } => {
                let (authority, source) = match self.caller {
                    MotorPairCaller::Ordinary { authority, source } => (authority, source),
                    MotorPairCaller::Managed { .. } => (
                        Authority::Learned,
                        AuditSource::ManagedControl,
                    ),
                };
                PairAction::Decide { left: self.left, right: self.right, authority, source, now_ns }
            },
            PairPhase::SecondTicks { .. } => PairAction::ReadTicks,
            PairPhase::Queueing { decision } => PairAction::Enqueue { decision },
            PairPhase::Restoring { .. } => PairAction::Restore,
            PairPhase::Finished { submission } => PairAction::Done { submission },
        }
    }

    fn finish(
        &mut self,
        decision: Option<MotorPairDecision>,
        outcome: MotorPairSubmissionOutcome,
    )
        ensures
            *final(self) == (PairRun { phase: finished(decision, outcome), ..*old(self) }),
    {
        self.phase = PairPhase::Finished { submission: MotorPairSubmission { decision, outcome } };
    }

    /// Report what was done.
    pub fn on(&mut self, event: PairEvent)
        requires
            old(self).wf(),
        ensures
            final(self).wf(),
            *final(self) == (PairRun { phase: old(self).next_phase(event), ..*old(self) }),
    {
        match (self.phase, event) {
            (PairPhase::Clock, PairEvent::PolicyClock { now_ns }) => {
                self.phase = if self.caller.is_managed() {
                    PairPhase::FirstTicks { now_ns }
                } else {
                    PairPhase::Deciding { now_ns, started: None }
                };
            },
            (PairPhase::FirstTicks { now_ns }, PairEvent::Ticks { now }) => {
                match self.caller {
                    MotorPairCaller::Managed { not_before_ticks, deadline_ticks } => {
                        match check_ticks(now, not_before_ticks, deadline_ticks) {
                            Some(outcome) => self.finish(None, outcome),
                            None => {
                                self.phase = PairPhase::Deciding { now_ns, started: Some(now) };
                            },
                        }
                    },
                    MotorPairCaller::Ordinary { .. } => {},
                }
            },
            (PairPhase::Deciding { started, .. }, PairEvent::Decided { decision }) => {
                self.phase = match started {
                    Some(started) => PairPhase::SecondTicks { decision, started },
                    None => PairPhase::Queueing { decision },
                };
            },
            (PairPhase::SecondTicks { decision, started }, PairEvent::Ticks { now }) => {
                match self.caller {
                    MotorPairCaller::Managed { deadline_ticks, .. } => {
                        self.phase = match check_ticks(now, started, deadline_ticks) {
                            Some(outcome) => PairPhase::Restoring { decision, outcome },
                            None => PairPhase::Queueing { decision },
                        };
                    },
                    MotorPairCaller::Ordinary { .. } => {},
                }
            },
            (PairPhase::Queueing { decision }, PairEvent::Enqueued { accepted }) => {
                let safe = match decision {
                    MotorPairDecision::Safe { .. } => true,
                    _ => false,
                };
                if accepted {
                    self.finish(Some(decision), MotorPairSubmissionOutcome::Queued);
                } else if self.caller.is_managed() || !safe {
                    self.phase = PairPhase::Restoring {
                        decision,
                        outcome: MotorPairSubmissionOutcome::QueueFailed,
                    };
                } else {
                    self.finish(Some(decision), MotorPairSubmissionOutcome::QueueFailed);
                }
            },
            (PairPhase::Restoring { decision, outcome }, PairEvent::Restored) => {
                self.finish(Some(decision), outcome);
            },
            _ => {},
        }
    }
}

/// Law: a pair of the wrong owner is refused before any clock, the monitor or the
/// queue is asked.
pub proof fn law_ownership_comes_first(
    managed_owned: bool,
    left: i32,
    right: i32,
    caller: MotorPairCaller,
)
    requires
        managed_owned != caller.managed(),
    ensures
        PairRun::begun(managed_owned, left, right, caller).asks() == (PairAction::Done {
            submission: MotorPairSubmission {
                decision: None,
                outcome: MotorPairSubmissionOutcome::OwnershipRejected,
            },
        }),
{
}

/// Law: an event that answers what was asked brings the submission forward; none
/// asks for more than six.
pub proof fn law_submission_ends(run: PairRun, event: PairEvent)
    requires
        run.wf(),
        PairRun::answers(run.asks(), event),
    ensures
        ({
            let after = PairRun { phase: run.next_phase(event), ..run };
            after.wf() && actions_left(after.phase) < actions_left(run.phase) <= 6
        }),
{
}

/// Actions that a phase can still ask for.
pub open spec fn actions_left(phase: PairPhase) -> int {
    match phase {
        PairPhase::Clock => 6,
        PairPhase::FirstTicks { .. } => 5,
        PairPhase::Deciding { .. } => 4,
        PairPhase::SecondTicks { .. } => 3,
        PairPhase::Queueing { .. } => 2,
        PairPhase::Restoring { .. } => 1,
        PairPhase::Finished { .. } => 0,
    }
}

/// Law: a managed pair is queued only before its deadline, on a clock that has not
/// gone back since the decision began.
pub proof fn law_managed_pair_is_timely(run: PairRun, event: PairEvent)
    requires
        run.wf(),
        run.caller.managed(),
        !(run.phase is Queueing),
        run.next_phase(event) is Queueing,
    ensures
        match (run.phase, event) {
            (PairPhase::SecondTicks { decision, started }, PairEvent::Ticks { now }) => {
                &&& run.caller->not_before_ticks <= started <= now < run.caller->deadline_ticks
                &&& run.next_phase(event) == (PairPhase::Queueing { decision })
            },
            _ => false,
        },
{
}

/// Law: a pair that was decided and not queued leaves no trace in the monitor: its
/// state is given back first. The one exception is a safe pair of an ordinary
/// caller, which the monitor keeps.
pub proof fn law_unqueued_pair_is_restored(run: PairRun, event: PairEvent)
    requires
        run.wf(),
        !(run.phase is Finished),
        run.next_phase(event) is Finished,
    ensures
        ({
            let submission = run.next_phase(event)->submission;
            submission.decision is Some && submission.outcome
                != MotorPairSubmissionOutcome::Queued ==> run.phase is Restoring || (
            !run.caller.managed() && submission.decision->0 is Safe)
        }),
{
}

/// The code of a submission: that of the decision if the pair was queued.
pub fn submission_code(submission: MotorPairSubmission) -> (code: i64)
    ensures
        code == match (submission.outcome, submission.decision) {
            (MotorPairSubmissionOutcome::Queued, Some(decision)) => decision.applied().2,
            _ => -1i64,
        },
{
    match submission.decision {
        Some(decision) => if submission.outcome == MotorPairSubmissionOutcome::Queued {
            decision.apply().2
        } else {
            -1
        },
        None => -1,
    }
}

/// Queue what the monitor decided on the link. A safe pair goes ahead of motion
/// that has not started.
pub fn queue_motor_pair(
    link: &mut ControlLink,
    decision: MotorPairDecision,
    now: u64,
    origin: Option<MotorOrigin>,
) -> (queued: Option<MotorDiscards>)
    requires
        old(link).wf(),
    ensures
        final(link).wf(),
        ({
            let before = old(link)@;
            let up = before.session.spec_alive(now) && before.motion_permitted();
            let (left, right, code) = decision.applied();
            let safe = decision is Safe;
            if !up || (!safe && before.assert_pending() && (left != 0 || right != 0)) {
                queued is None && final(link)@ == before
            } else if safe {
                &&& queued == Some(
                    MotorDiscards {
                        pending: before.tx.pending_motor,
                        frame: before.tx.unsent_motor_discard(),
                    },
                )
                &&& final(link)@ == (LinkModel {
                    tx: before.tx.without_unsent_motor().with_pending(
                        crate::link::tx::MotorRequest { left: 0, right: 0, queued_at: now, origin },
                    ),
                    ..before
                })
            } else {
                &&& queued == Some(MotorDiscards { pending: before.tx.pending_motor, frame: None })
                &&& final(link)@ == (LinkModel {
                    tx: before.tx.with_pending(
                        crate::link::tx::MotorRequest { left, right, queued_at: now, origin },
                    ),
                    ..before
                })
            }
        }),
{
    match decision {
        MotorPairDecision::Safe { .. } => link.set_safe_motor_pair(now, origin),
        MotorPairDecision::Allow { left, right } => link.set_motor_pair(left, right, now, origin),
        MotorPairDecision::Clamp { left, right } => link.set_motor_pair(left, right, now, origin),
    }
}

// ---------------------------------------------------------------------------
// Local outputs
// ---------------------------------------------------------------------------

/// A duty for a local PWM channel, in percent.
#[derive(Debug, Clone, Copy, PartialEq, Eq, Structural)]
pub struct PwmOutput {
    pub chip: u8,
    pub channel: u8,
    pub percent: u32,
}

/// A write to a local actuator.
#[derive(Debug, Clone, Copy, PartialEq, Eq, Structural)]
pub enum Output {
    Pwm(PwmOutput),
    Gpio(RegOp),
}

pub open spec fn pwm_target(chip: u8, channel: u8, value: u32) -> Option<PwmOutput> {
    if 1 <= channel <= 2 && chip <= 1 {
        Some(PwmOutput { chip, channel, percent: value })
    } else {
        None
    }
}

/// The write that puts a duty on a PWM channel. There are two chips with two
/// channels each.
pub fn apply_pwm_value(chip: u8, channel: u8, value: u32) -> (output: Option<PwmOutput>)
    ensures
        output == pwm_target(chip, channel, value),
{
    if 1 <= channel && channel <= 2 && chip <= 1 {
        Some(PwmOutput { chip, channel, percent: value })
    } else {
        None
    }
}

pub open spec fn gpio_target(pin: u8, value: u32) -> Option<RegOp> {
    if pin < NUM_PINS {
        let gpio = Rp1Gpio { base: crate::platform::memory_map::RP1_GPIO_BASE };
        Some(
            if value != 0 {
                gpio.on_ctrl(
                    pin,
                    crate::platform::gpio::OUTOVER_MASK,
                    crate::platform::gpio::OUTOVER_HIGH,
                )
            } else {
                gpio.on_ctrl(
                    pin,
                    crate::platform::gpio::OUTOVER_MASK,
                    crate::platform::gpio::OUTOVER_LOW,
                )
            },
        )
    } else {
        None
    }
}

/// The write that puts a level on a pin: high for any value but zero.
pub fn apply_gpio_value(pin: u8, value: u32) -> (op: Option<RegOp>)
    ensures
        op == gpio_target(pin, value),
{
    if pin < NUM_PINS {
        let gpio = Rp1Gpio::new();
        Some(
            if value != 0 {
                gpio.set_high(pin)
            } else {
                gpio.set_low(pin)
            },
        )
    } else {
        None
    }
}

pub open spec fn drive_output(drive: SafeDrive) -> Option<Output> {
    match drive.channel.kind {
        ActuationKind::PwmDuty => match pwm_target(
            drive.channel.chip,
            drive.channel.channel,
            drive.safe_value,
        ) {
            Some(output) => Some(Output::Pwm(output)),
            None => None,
        },
        ActuationKind::GpioLevel => match gpio_target(drive.channel.channel, drive.safe_value) {
            Some(op) => Some(Output::Gpio(op)),
            None => None,
        },
    }
}

/// The write that makes an actuator safe.
pub fn apply_safe_drive(drive: SafeDrive) -> (output: Option<Output>)
    ensures
        output == drive_output(drive),
{
    match drive.channel.kind {
        ActuationKind::PwmDuty => match apply_pwm_value(
            drive.channel.chip,
            drive.channel.channel,
            drive.safe_value,
        ) {
            Some(output) => Some(Output::Pwm(output)),
            None => None,
        },
        ActuationKind::GpioLevel => match apply_gpio_value(
            drive.channel.channel,
            drive.safe_value,
        ) {
            Some(op) => Some(Output::Gpio(op)),
            None => None,
        },
    }
}

/// A request to the monitor, with whose authority it has and whom it is recorded
/// for.
#[derive(Debug, Clone, Copy, PartialEq, Eq, Structural)]
pub struct MonitorRequest {
    pub request: ActuationRequest,
    pub authority: Authority,
    pub source: AuditSource,
}

pub open spec fn pwm_request(
    platform: Platform,
    chip: u8,
    channel: u8,
    duty: u32,
    reserved: bool,
    authority: Authority,
    source: AuditSource,
) -> Result<MonitorRequest, i64> {
    if platform == Platform::Rpi5 && wheel_of(chip, channel, reserved) is Some {
        Err::<MonitorRequest, i64>(-1i64)
    } else {
        Ok::<MonitorRequest, i64>(
            MonitorRequest {
                request: ActuationRequest {
                    ch: ChannelId { kind: ActuationKind::PwmDuty, chip, channel },
                    value: duty,
                },
                authority,
                source,
            },
        )
    }
}

/// What the monitor is asked for a PWM duty. A channel of the motor link is
/// refused: wheels move in pairs.
pub fn guard_pwm_with(
    platform: Platform,
    chip: u8,
    channel: u8,
    duty: u32,
    reserved: bool,
    authority: Authority,
    source: AuditSource,
) -> (request: Result<MonitorRequest, i64>)
    ensures
        request == pwm_request(platform, chip, channel, duty, reserved, authority, source),
{
    if is_motor_channel(platform, chip, channel, reserved) {
        return Err(-1);
    }
    Ok(
        MonitorRequest {
            request: ActuationRequest {
                ch: ChannelId { kind: ActuationKind::PwmDuty, chip, channel },
                value: duty,
            },
            authority,
            source,
        },
    )
}

/// What the monitor is asked for a learned PWM duty.
pub fn guard_pwm(platform: Platform, chip: u8, channel: u8, duty: u32, reserved: bool) -> (request:
    Result<MonitorRequest, i64>)
    ensures
        request == pwm_request(
            platform,
            chip,
            channel,
            duty,
            reserved,
            Authority::Learned,
            AuditSource::LearnedBehavior,
        ),
{
    guard_pwm_with(
        platform,
        chip,
        channel,
        duty,
        reserved,
        Authority::Learned,
        AuditSource::LearnedBehavior,
    )
}

pub open spec fn gpio_request(
    pin: u8,
    level: u32,
    authority: Authority,
    source: AuditSource,
) -> MonitorRequest {
    MonitorRequest {
        request: ActuationRequest {
            ch: ChannelId { kind: ActuationKind::GpioLevel, chip: 0, channel: pin },
            value: level,
        },
        authority,
        source,
    }
}

/// What the monitor is asked for a level of a pin.
pub fn guard_gpio_with(pin: u8, level: u32, authority: Authority, source: AuditSource) -> (request:
    MonitorRequest)
    ensures
        request == gpio_request(pin, level, authority, source),
{
    MonitorRequest {
        request: ActuationRequest {
            ch: ChannelId { kind: ActuationKind::GpioLevel, chip: 0, channel: pin },
            value: level,
        },
        authority,
        source,
    }
}

/// What the monitor is asked for a learned level of a pin.
pub fn guard_gpio(pin: u8, level: u32) -> (request: MonitorRequest)
    ensures
        request == gpio_request(pin, level, Authority::Learned, AuditSource::LearnedBehavior),
{
    guard_gpio_with(pin, level, Authority::Learned, AuditSource::LearnedBehavior)
}

/// What is written for a decided request, and the code returned: the decided
/// value goes to the channel that was asked for.
pub fn apply_decided(request: ActuationRequest, value: u32, code: i64) -> (result: (
    Option<Output>,
    i64,
))
    ensures
        result.0 == drive_output(SafeDrive { channel: request.ch, safe_value: value }),
        result.1 == code,
{
    (apply_safe_drive(SafeDrive { channel: request.ch, safe_value: value }), code)
}

/// A single wheel cannot be driven: every request is refused.
pub fn guard_motor_with(
    chip: u8,
    channel: u8,
    setpoint: i32,
    authority: Authority,
    source: AuditSource,
) -> (code: i64)
    ensures
        code == -1,
{
    -1
}

/// A single wheel cannot be driven by learned behaviour either.
pub fn guard_motor(chip: u8, channel: u8, setpoint: i32) -> (code: i64)
    ensures
        code == -1,
{
    guard_motor_with(chip, channel, setpoint, Authority::Learned, AuditSource::LearnedBehavior)
}

/// The submission that a motor pair with some authority starts.
pub fn guard_motor_pair_with(
    managed_owned: bool,
    left_permille: i32,
    right_permille: i32,
    authority: Authority,
    source: AuditSource,
) -> (run: PairRun)
    ensures
        run.wf(),
        run == PairRun::begun(
            managed_owned,
            left_permille,
            right_permille,
            MotorPairCaller::Ordinary { authority, source },
        ),
{
    PairRun::begin(
        managed_owned,
        left_permille,
        right_permille,
        MotorPairCaller::Ordinary { authority, source },
    )
}

/// The submission that a learned motor pair starts.
pub fn guard_motor_pair(managed_owned: bool, left_permille: i32, right_permille: i32) -> (run:
    PairRun)
    ensures
        run.wf(),
        run == PairRun::begun(
            managed_owned,
            left_permille,
            right_permille,
            MotorPairCaller::Ordinary {
                authority: Authority::Learned,
                source: AuditSource::LearnedBehavior,
            },
        ),
{
    guard_motor_pair_with(
        managed_owned,
        left_permille,
        right_permille,
        Authority::Learned,
        AuditSource::LearnedBehavior,
    )
}

// ---------------------------------------------------------------------------
// Emergency stop
// ---------------------------------------------------------------------------

/// What the monitor answered an operator.
#[derive(Debug, PartialEq, Eq)]
pub enum EstopCommandResult {
    Triggered { drives: Vec<SafeDrive> },
    Released,
    Denied,
}

/// What the monitor answered a release.
#[derive(Debug, Clone, Copy, PartialEq, Eq, Structural)]
pub enum ReleaseResult {
    Released,
    Denied,
}

/// What a logged stop is about.
#[derive(Debug, Clone, Copy, PartialEq, Eq, Structural)]
pub enum EstopStage {
    Assert,
    Release,
}

/// Who is named in the log.
#[derive(Debug, Clone, Copy, PartialEq, Eq, Structural)]
pub enum LogSource {
    Operator,
    Watchdog,
}

/// A step of stopping or releasing.
#[derive(Debug, Clone, Copy, PartialEq, Eq, Structural)]
pub enum EstopEffect {
    /// Ask the installation to stop.
    RequestStop,
    /// Make an actuator safe.
    Drive(SafeDrive),
    /// All local actuators are safe.
    LocalSafe,
    /// Tell the link of the stop, or of its release.
    NotifyLink { assert: bool },
    /// Record the stop.
    RecordStop(AuditSource),
    /// Record the release.
    RecordRelease(AuditSource),
    Log { event_id: u64, source: LogSource, stage: EstopStage, ts_ns: u64 },
}

/// Ownership of the wheels, and the count of logged stops.
#[derive(Debug, Clone, Copy, PartialEq, Eq, Structural)]
pub struct Actuation {
    pub managed_owned: bool,
    /// Stops are not logged under the managed runtime.
    pub logs: bool,
    pub next_event: u64,
}

/// A drive for each actuator.
pub open spec fn drive_effects(drives: Seq<SafeDrive>) -> Seq<EstopEffect> {
    Seq::new(drives.len(), |i: int| EstopEffect::Drive(drives[i]))
}

pub open spec fn log_source(source: AuditSource) -> Option<LogSource> {
    match source {
        AuditSource::Operator => Some(LogSource::Operator),
        AuditSource::Watchdog => Some(LogSource::Watchdog),
        AuditSource::LearnedBehavior => None,
        AuditSource::ManagedControl => None,
    }
}

impl Actuation {
    pub fn new(logs: bool) -> (actuation: Self)
        ensures
            actuation == (Actuation { managed_owned: false, logs, next_event: 1 }),
    {
        Actuation { managed_owned: false, logs, next_event: 1 }
    }

    /// Give the wheels to the managed program or take them from it. No stop is
    /// triggered or released by that.
    pub fn set_managed_motor_pair_owner(&mut self, owned: bool)
        ensures
            *final(self) == (Actuation { managed_owned: owned, ..*old(self) }),
    {
        self.managed_owned = owned;
    }

    pub fn managed_motor_pair_owned(&self) -> (owned: bool)
        ensures
            owned == self.managed_owned,
    {
        self.managed_owned
    }

    /// With one more event counted.
    pub open spec fn counted(self) -> Actuation {
        Actuation {
            next_event: if self.next_event == u64::MAX {
                0
            } else {
                (self.next_event + 1) as u64
            },
            ..self
        }
    }

    /// The number of the next logged stop.
    pub fn next_v04_estop_event_id(&mut self) -> (id: u64)
        ensures
            id == old(self).next_event,
            *final(self) == old(self).counted(),
    {
        let id: u64 = self.next_event;
        self.next_event = self.next_event.wrapping_add(1);
        id
    }

    /// The log entry, if there is one to write.
    pub open spec fn logged(
        self,
        source: Option<LogSource>,
        stage: EstopStage,
        now: u64,
    ) -> Seq<EstopEffect> {
        match source {
            Some(source) => if self.logs {
                seq![EstopEffect::Log { event_id: self.next_event, source, stage, ts_ns: now }]
            } else {
                Seq::empty()
            },
            None => Seq::empty(),
        }
    }

    /// The count after the log entry.
    pub open spec fn after_log(self, source: Option<LogSource>) -> Actuation {
        if source is Some && self.logs {
            self.counted()
        } else {
            self
        }
    }

    fn log(
        &mut self,
        effects: &mut Vec<EstopEffect>,
        source: Option<LogSource>,
        stage: EstopStage,
        now: u64,
    )
        ensures
            final(effects)@ == old(effects)@ + old(self).logged(source, stage, now),
            *final(self) == old(self).after_log(source),
    {
        let ghost before = effects@;
        match source {
            Some(source) => {
                if self.logs {
                    let event_id: u64 = self.next_v04_estop_event_id();
                    effects.push(EstopEffect::Log { event_id, source, stage, ts_ns: now });
                }
            },
            None => {},
        }
        assert(effects@ =~= before + old(self).logged(source, stage, now));
    }

    /// The steps of a stop: all drives, the link, the record.
    pub open spec fn stop_effects(drives: Seq<SafeDrive>, source: AuditSource) -> Seq<EstopEffect> {
        drive_effects(drives) + seq![
            EstopEffect::NotifyLink { assert: true },
            EstopEffect::RecordStop(source),
        ]
    }

    fn push_drives(effects: &mut Vec<EstopEffect>, drives: &Vec<SafeDrive>)
        ensures
            final(effects)@ == old(effects)@ + drive_effects(drives@),
    {
        let ghost before = effects@;
        let mut i: usize = 0;
        assert(effects@ =~= before + drive_effects(drives@).subrange(0, 0));
        while i < drives.len()
            invariant
                i <= drives@.len(),
                effects@ == before + drive_effects(drives@).subrange(0, i as int),
            decreases drives@.len() - i,
        {
            effects.push(EstopEffect::Drive(drives[i]));
            i = i + 1;
            assert(effects@ =~= before + drive_effects(drives@).subrange(0, i as int));
        }
        assert(drive_effects(drives@).subrange(0, i as int) =~= drive_effects(drives@));
    }

    /// A trusted stop. The installation was asked to stop before the monitor was,
    /// whose safe values `drives` are; `was_latched` is what it had held before.
    /// Only the transition is logged, and only for an operator or the watchdog.
    pub fn trigger_estop(
        &mut self,
        source: AuditSource,
        was_latched: bool,
        drives: &Vec<SafeDrive>,
        now: u64,
    ) -> (result: (Vec<EstopEffect>, i64))
        ensures
            ({
                let named = if was_latched {
                    None
                } else {
                    log_source(source)
                };
                &&& result.0@ == Actuation::stop_effects(drives@, source) + old(self).logged(
                    named,
                    EstopStage::Assert,
                    now,
                )
                &&& result.1 == 0
                &&& *final(self) == old(self).after_log(named)
            }),
    {
        let mut effects: Vec<EstopEffect> = Vec::new();
        Actuation::push_drives(&mut effects, drives);
        effects.push(EstopEffect::NotifyLink { assert: true });
        effects.push(EstopEffect::RecordStop(source));
        assert(effects@ =~= Actuation::stop_effects(drives@, source));
        let named = if was_latched {
            None
        } else {
            match source {
                AuditSource::Operator => Some(LogSource::Operator),
                AuditSource::Watchdog => Some(LogSource::Watchdog),
                AuditSource::LearnedBehavior => None,
                AuditSource::ManagedControl => None,
            }
        };
        self.log(&mut effects, named, EstopStage::Assert, now);
        (effects, 0)
    }

    /// A stop by the watchdog.
    pub fn watchdog_estop_trigger(&mut self, was_latched: bool, drives: &Vec<SafeDrive>, now: u64)
        -> (result: (Vec<EstopEffect>, i64))
        ensures
            ({
                let named = if was_latched {
                    None
                } else {
                    Some(LogSource::Watchdog)
                };
                &&& result.0@ == Actuation::stop_effects(drives@, AuditSource::Watchdog) + old(
                    self,
                ).logged(named, EstopStage::Assert, now)
                &&& result.1 == 0
                &&& *final(self) == old(self).after_log(named)
            }),
    {
        self.trigger_estop(AuditSource::Watchdog, was_latched, drives, now)
    }

    /// What an operator's command comes to.
    pub open spec fn operator_effects(
        self,
        answer: EstopCommandResult,
        was_latched: bool,
        now: u64,
    ) -> Seq<EstopEffect> {
        match answer {
            EstopCommandResult::Triggered { drives } => seq![EstopEffect::RequestStop]
                + drive_effects(drives@) + seq![
                EstopEffect::LocalSafe,
                EstopEffect::NotifyLink { assert: true },
                EstopEffect::RecordStop(AuditSource::Operator),
            ] + self.logged(
                if was_latched {
                    None
                } else {
                    Some(LogSource::Operator)
                },
                EstopStage::Assert,
                now,
            ),
            EstopCommandResult::Released => seq![EstopEffect::NotifyLink { assert: false }] + (
            if was_latched {
                seq![EstopEffect::RecordRelease(AuditSource::Operator)]
            } else {
                Seq::empty()
            }) + self.logged(
                if was_latched {
                    Some(LogSource::Operator)
                } else {
                    None
                },
                EstopStage::Release,
                now,
            ),
            EstopCommandResult::Denied => Seq::empty(),
        }
    }

    /// A command of the operator. `answer` is the monitor's; only a transition is
    /// logged.
    pub fn operator_estop(&mut self, answer: EstopCommandResult, was_latched: bool, now: u64)
        -> (result: (Vec<EstopEffect>, i64))
        ensures
            result.0@ == old(self).operator_effects(answer, was_latched, now),
            result.1 == if answer is Denied {
                -1
            } else {
                0
            },
            *final(self) == old(self).after_log(
                match answer {
                    EstopCommandResult::Triggered { .. } => if was_latched {
                        None
                    } else {
                        Some(LogSource::Operator)
                    },
                    EstopCommandResult::Released => if was_latched {
                        Some(LogSource::Operator)
                    } else {
                        None
                    },
                    EstopCommandResult::Denied => None,
                },
            ),
    {
        let mut effects: Vec<EstopEffect> = Vec::new();
        match answer {
            EstopCommandResult::Triggered { drives } => {
                effects.push(EstopEffect::RequestStop);
                assert(effects@ =~= seq![EstopEffect::RequestStop]);
                Actuation::push_drives(&mut effects, &drives);
                effects.push(EstopEffect::LocalSafe);
                effects.push(EstopEffect::NotifyLink { assert: true });
                effects.push(EstopEffect::RecordStop(AuditSource::Operator));
                assert(effects@ =~= seq![EstopEffect::RequestStop] + drive_effects(drives@) + seq![
                    EstopEffect::LocalSafe,
                    EstopEffect::NotifyLink { assert: true },
                    EstopEffect::RecordStop(AuditSource::Operator),
                ]);
                let named = if was_latched {
                    None
                } else {
                    Some(LogSource::Operator)
                };
                self.log(&mut effects, named, EstopStage::Assert, now);
                (effects, 0)
            },
            EstopCommandResult::Released => {
                effects.push(EstopEffect::NotifyLink { assert: false });
                if was_latched {
                    effects.push(EstopEffect::RecordRelease(AuditSource::Operator));
                }
                assert(effects@ =~= seq![EstopEffect::NotifyLink { assert: false }] + (
                if was_latched {
                    seq![EstopEffect::RecordRelease(AuditSource::Operator)]
                } else {
                    Seq::empty()
                }));
                let named = if was_latched {
                    Some(LogSource::Operator)
                } else {
                    None
                };
                self.log(&mut effects, named, EstopStage::Release, now);
                (effects, 0)
            },
            EstopCommandResult::Denied => {
                assert(effects@ =~= Seq::<EstopEffect>::empty());
                (effects, -1)
            },
        }
    }

    /// A release on somebody's authority. `answer` is the monitor's.
    pub fn release_estop(
        &mut self,
        answer: ReleaseResult,
        was_latched: bool,
        source: AuditSource,
        now: u64,
    ) -> (result: (Vec<EstopEffect>, i64))
        ensures
            match answer {
                ReleaseResult::Released => {
                    let named = if was_latched {
                        Some(LogSource::Operator)
                    } else {
                        None
                    };
                    &&& result.0@ == seq![EstopEffect::NotifyLink { assert: false }] + (
                    if was_latched {
                        seq![EstopEffect::RecordRelease(source)]
                    } else {
                        Seq::empty()
                    }) + old(self).logged(named, EstopStage::Release, now)
                    &&& result.1 == 0
                    &&& *final(self) == old(self).after_log(named)
                },
                ReleaseResult::Denied => {
                    &&& result.0@ == Seq::<EstopEffect>::empty()
                    &&& result.1 == -1
                    &&& *final(self) == *old(self)
                },
            },
    {
        let mut effects: Vec<EstopEffect> = Vec::new();
        match answer {
            ReleaseResult::Released => {
                effects.push(EstopEffect::NotifyLink { assert: false });
                if was_latched {
                    effects.push(EstopEffect::RecordRelease(source));
                }
                assert(effects@ =~= seq![EstopEffect::NotifyLink { assert: false }] + (
                if was_latched {
                    seq![EstopEffect::RecordRelease(source)]
                } else {
                    Seq::empty()
                }));
                let named = if was_latched {
                    Some(LogSource::Operator)
                } else {
                    None
                };
                self.log(&mut effects, named, EstopStage::Release, now);
                (effects, 0)
            },
            ReleaseResult::Denied => {
                assert(effects@ =~= Seq::<EstopEffect>::empty());
                (effects, -1)
            },
        }
    }
}

/// Law: a pin is driven high exactly for a level other than zero, and low exactly
/// for zero; a safe level of zero leaves it low. Nothing else of its control
/// register changes. Only the 28 pins of the header can be driven.
pub proof fn law_pin_is_driven_to_its_level(pin: u8, value: u32, ctrl: u32)
    ensures
        gpio_target(pin, value) is Some <==> pin < 28,
        pin < 28 ==> {
            let op = gpio_target(pin, value)->0;
            &&& op.spec_addr() == crate::platform::memory_map::RP1_GPIO_BASE + 8 * pin + 4
            &&& op.applied(ctrl) & 0x3000 == 0x3000 <==> value != 0
            &&& op.applied(ctrl) & 0x3000 == 0x2000 <==> value == 0
            &&& op.applied(ctrl) & 0xFFFF_CFFF == ctrl & 0xFFFF_CFFF
        },
{
    crate::platform::gpio::lemma_level_field(ctrl);
}

/// Law: a safe drive goes to the actuator that it names: a duty unchanged to its
/// channel of its chip, a level to its pin. Channels that there are not get nothing.
pub proof fn law_drive_reaches_its_actuator(drive: SafeDrive, ctrl: u32)
    ensures
        ({
            let ch = drive.channel;
            let output = drive_output(drive);
            match ch.kind {
                ActuationKind::PwmDuty => if ch.chip <= 1 && (ch.channel == 1 || ch.channel == 2) {
                    match output {
                        Some(Output::Pwm(pwm)) => {
                            &&& pwm.chip == ch.chip
                            &&& pwm.channel == ch.channel
                            &&& pwm.percent == drive.safe_value
                        },
                        _ => false,
                    }
                } else {
                    output is None
                },
                ActuationKind::GpioLevel => if ch.channel < 28 {
                    match output {
                        Some(Output::Gpio(op)) => {
                            &&& op.spec_addr() == crate::platform::memory_map::RP1_GPIO_BASE + 8
                                * ch.channel + 4
                            &&& drive.safe_value == 0 <==> op.applied(ctrl) & 0x3000 == 0x2000
                            &&& drive.safe_value != 0 <==> op.applied(ctrl) & 0x3000 == 0x3000
                        },
                        _ => false,
                    }
                } else {
                    output is None
                },
            }
        }),
{
    law_pin_is_driven_to_its_level(drive.channel.channel, drive.safe_value, ctrl);
}

/// Law: the monitor is asked for exactly the channel and value of the request, with
/// the caller's authority. A channel of the motor link is refused on the Pi 5, where
/// it has wheels, and nowhere else.
pub proof fn law_request_is_passed_on(
    platform: Platform,
    chip: u8,
    channel: u8,
    duty: u32,
    reserved: bool,
    authority: Authority,
    source: AuditSource,
)
    ensures
        ({
            let wheel = platform is Rpi5 && wheel_of(chip, channel, reserved) is Some;
            match pwm_request(platform, chip, channel, duty, reserved, authority, source) {
                Ok(asked) => {
                    &&& !wheel
                    &&& asked.request.ch.kind is PwmDuty
                    &&& asked.request.ch.chip == chip
                    &&& asked.request.ch.channel == channel
                    &&& asked.request.value == duty
                    &&& asked.authority == authority
                    &&& asked.source == source
                },
                Err(code) => wheel && code == -1,
            }
        }),
        ({
            let asked = gpio_request(channel, duty, authority, source);
            &&& asked.request.ch.kind is GpioLevel
            &&& asked.request.ch.chip == 0
            &&& asked.request.ch.channel == channel
            &&& asked.request.value == duty
            &&& asked.authority == authority
            &&& asked.source == source
        }),
{
}

/// Law: the wheels get the pair that the monitor decided. Only a decision by policy
/// is reported as an intervention.
pub proof fn law_decision_is_applied(decision: MotorPairDecision)
    ensures
        match decision {
            MotorPairDecision::Allow { left, right } => decision.applied() == (left, right, 0i64),
            MotorPairDecision::Clamp { left, right } => decision.applied() == (left, right, 0i64),
            MotorPairDecision::Safe { left, right } => decision.applied() == (left, right, -1i64),
        },
{
}

/// Law: the managed program submits with learned authority under its own name; any
/// other caller with the authority and under the name that it gave. What the monitor
/// is asked is the pair that was submitted.
pub proof fn law_monitor_is_asked_for_the_pair(run: PairRun)
    requires
        run.phase is Deciding,
    ensures
        match run.asks() {
            PairAction::Decide { left, right, authority, source, now_ns } => {
                &&& left == run.left
                &&& right == run.right
                &&& now_ns == run.phase->Deciding_now_ns
                &&& match run.caller {
                    MotorPairCaller::Ordinary { authority: given, source: name } => authority
                        == given && source == name,
                    MotorPairCaller::Managed { .. } => authority is Learned
                        && source is ManagedControl,
                }
            },
            _ => false,
        },
{
}

/// Law: a pair is queued as it was decided, it counts as queued exactly if the link
/// took it, and nothing is queued that was not decided. A pair that is on its way
/// back was not queued.
pub proof fn law_queued_means_accepted(run: PairRun, event: PairEvent)
    requires
        run.wf(),
        run.phase is Restoring ==> !(run.phase->outcome is Queued),
    ensures
        run.next_phase(event) is Restoring ==> !(run.next_phase(event)->outcome is Queued),
        ({
            let next = run.next_phase(event);
            &&& run.phase is Queueing ==> run.asks() == (PairAction::Enqueue {
                decision: run.phase->Queueing_decision,
            })
            &&& next is Finished && !(run.phase is Finished) ==> {
                let submission = next->submission;
                &&& submission.outcome is Queued <==> run.phase is Queueing && event == (
                PairEvent::Enqueued { accepted: true })
                &&& submission.outcome is Queued ==> submission.decision == Some(
                    run.phase->Queueing_decision,
                )
            }
            &&& next is Queueing && !(run.phase is Queueing) ==> match (run.phase, event) {
                (PairPhase::Deciding { .. }, PairEvent::Decided { decision }) => {
                    next->Queueing_decision == decision
                },
                (PairPhase::SecondTicks { decision, .. }, PairEvent::Ticks { .. }) => {
                    next->Queueing_decision == decision
                },
                _ => false,
            }
        }),
{
}

/// Law: a time before the first bound is a clock that went back; one at or after the
/// second is a missed deadline; every other is in time.
pub proof fn law_ticks_between_bounds(now: u64, from: u64, end: u64)
    ensures
        tick_fault(now, from, end) is None <==> from <= now < end,
        tick_fault(now, from, end) == Some(MotorPairSubmissionOutcome::ClockReversed) <==> now
            < from,
        tick_fault(now, from, end) == Some(MotorPairSubmissionOutcome::DeadlineExpired) <==> from
            <= now && end <= now,
{
}

/// Law: a managed pair whose time is out of bounds reaches neither the monitor nor
/// the link: before the decision it ends at once, and after it the monitor's state is
/// given back.
pub proof fn law_untimely_pair_goes_nowhere(run: PairRun, now: u64)
    requires
        run.wf(),
        run.caller.managed(),
        now < run.caller->not_before_ticks || now >= run.caller->deadline_ticks,
    ensures
        run.phase is FirstTicks ==> {
            let next = run.next_phase(PairEvent::Ticks { now });
            &&& next is Finished
            &&& next->submission.decision is None
            &&& next->submission.outcome is ClockReversed || next->submission.outcome
                is DeadlineExpired
        },
        run.phase is SecondTicks ==> run.next_phase(PairEvent::Ticks { now }) is Restoring,
{
}

/// Law: an operator's stop asks the installation first, makes every actuator safe in
/// order, and tells the link before it is recorded. A release tells the link of the
/// release; a denied command does nothing at all.
pub proof fn law_operator_command(
    actuation: Actuation,
    answer: EstopCommandResult,
    was_latched: bool,
    now: u64,
)
    ensures
        ({
            let effects = actuation.operator_effects(answer, was_latched, now);
            match answer {
                EstopCommandResult::Triggered { drives } => {
                    let n = drives@.len() as int;
                    &&& effects[0] is RequestStop
                    &&& forall|i: int|
                        0 <= i < n ==> #[trigger] effects[i + 1] == EstopEffect::Drive(drives@[i])
                    &&& effects[n + 1] is LocalSafe
                    &&& effects[n + 2] == (EstopEffect::NotifyLink { assert: true })
                    &&& effects[n + 3] == EstopEffect::RecordStop(AuditSource::Operator)
                    &&& effects.len() == n + 4 + if actuation.logs && !was_latched {
                        1int
                    } else {
                        0
                    }
                    &&& actuation.logs && !was_latched ==> effects[n + 4] == (EstopEffect::Log {
                        event_id: actuation.next_event,
                        source: LogSource::Operator,
                        stage: EstopStage::Assert,
                        ts_ns: now,
                    })
                },
                EstopCommandResult::Released => {
                    &&& effects[0] == (EstopEffect::NotifyLink { assert: false })
                    &&& !was_latched ==> effects.len() == 1
                    &&& was_latched ==> effects[1] == EstopEffect::RecordRelease(
                        AuditSource::Operator,
                    )
                    &&& was_latched && actuation.logs ==> effects.len() == 3 && effects[2] == (
                    EstopEffect::Log {
                        event_id: actuation.next_event,
                        source: LogSource::Operator,
                        stage: EstopStage::Release,
                        ts_ns: now,
                    })
                    &&& was_latched && !actuation.logs ==> effects.len() == 2
                },
                EstopCommandResult::Denied => effects.len() == 0,
            }
        }),
{
}

/// Law: a stop records its own source after the link was told, and only stops of an
/// operator or the watchdog have a name in the log.
pub proof fn law_stop_is_recorded(drives: Seq<SafeDrive>, source: AuditSource)
    ensures
        Actuation::stop_effects(drives, source).len() == drives.len() + 2,
        Actuation::stop_effects(drives, source)[drives.len() as int + 1] == EstopEffect::RecordStop(
            source,
        ),
        log_source(source) is Some <==> source is Operator || source is Watchdog,
        source is Operator ==> log_source(source) == Some(LogSource::Operator),
        source is Watchdog ==> log_source(source) == Some(LogSource::Watchdog),
{
}

/// Law: each logged stop has the next number, and the count wraps; what is not
/// logged is not counted.
pub proof fn law_logged_stops_are_numbered(
    actuation: Actuation,
    source: Option<LogSource>,
    stage: EstopStage,
    now: u64,
)
    ensures
        ({
            let entries = actuation.logged(source, stage, now);
            let after = actuation.after_log(source);
            &&& entries.len() == if source is Some && actuation.logs {
                1int
            } else {
                0
            }
            &&& entries.len() == 1 ==> entries[0] == (EstopEffect::Log {
                event_id: actuation.next_event,
                source: source->0,
                stage,
                ts_ns: now,
            })
            &&& after.next_event as int == (actuation.next_event + entries.len()) % (u64::MAX + 1)
            &&& after.logs == actuation.logs
            &&& after.managed_owned == actuation.managed_owned
        }),
{
}

/// Law: stopping takes no ownership away, and neither does releasing.
pub proof fn law_stop_keeps_ownership(actuation: Actuation, named: Option<LogSource>)
    ensures
        actuation.after_log(named).managed_owned == actuation.managed_owned,
{
}

/// Law: every drive of a stop comes before the link is told, and the link is told
/// of every stop.
pub proof fn law_drives_come_before_link(drives: Seq<SafeDrive>, source: AuditSource, i: int)
    requires
        0 <= i < drives.len(),
    ensures
        Actuation::stop_effects(drives, source)[i] == EstopEffect::Drive(drives[i]),
        Actuation::stop_effects(drives, source)[drives.len() as int] == (EstopEffect::NotifyLink {
            assert: true,
        }),
{
}

} // verus!
