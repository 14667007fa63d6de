//! Interrupts: which one it is, and what the periodic timer does.
//!
//! The timer releases work every 10 ms. It stops at the first fault, which is
//! kept, and asks for a stop of the machine.

use vstd::prelude::*;

use crate::arch::exceptions::{hex_digit, hex_nibble};
use crate::arch::gic::{self, SPURIOUS, TIMER_PHYS};
use crate::arch::mm::Platform;
use crate::platform::mmio::RegOp;
use crate::time::periodic::{
    PeriodicRelease, PeriodicSchedule, ReleaseError, ReleaseStats, ScheduleModel,
};

verus! {

/// The timer's interrupt.
pub const TIMER_IRQ: u32 = TIMER_PHYS;

/// The GPIO bank of the Pi 5: vector 0 of the message-signalled interrupts, which
/// start at shared interrupt 128, and those start at 32.
pub const RP1_GPIO_IRQ: u32 = 160;

/// Releases in a second.
pub const RELEASES_PER_SECOND: u64 = 100;

/// Why the timer stopped.
#[derive(Clone, Copy, Debug, PartialEq, Eq, Structural)]
pub enum TimerFault {
    Busy,
    NotStarted,
    AlreadyStarted,
    InvalidPeriod,
    ClockReversed,
    Exhausted,
    Stopped,
    ManagedControl,
}

impl TimerFault {
    pub open spec fn spec_code(self) -> u8 {
        match self {
            TimerFault::Busy => 1,
            TimerFault::NotStarted => 2,
            TimerFault::AlreadyStarted => 3,
            TimerFault::InvalidPeriod => 4,
            TimerFault::ClockReversed => 5,
            TimerFault::Exhausted => 6,
            TimerFault::Stopped => 7,
            TimerFault::ManagedControl => 8,
        }
    }

    /// The code of the fault; zero is none.
    pub fn code(self) -> (code: u8)
        ensures
            code == self.spec_code(),
            code != 0,
    {
        match self {
            TimerFault::Busy => 1,
            TimerFault::NotStarted => 2,
            TimerFault::AlreadyStarted => 3,
            TimerFault::InvalidPeriod => 4,
            TimerFault::ClockReversed => 5,
            TimerFault::Exhausted => 6,
            TimerFault::Stopped => 7,
            TimerFault::ManagedControl => 8,
        }
    }
}

pub open spec fn fault_of(error: ReleaseError) -> TimerFault {
    match error {
        ReleaseError::InvalidPeriod => TimerFault::InvalidPeriod,
        ReleaseError::ClockReversed => TimerFault::ClockReversed,
        ReleaseError::Exhausted => TimerFault::Exhausted,
    }
}

impl From<ReleaseError> for TimerFault {
    fn from(error: ReleaseError) -> (fault: Self) {
        match error {
            ReleaseError::InvalidPeriod => TimerFault::InvalidPeriod,
            ReleaseError::ClockReversed => TimerFault::ClockReversed,
            ReleaseError::Exhausted => TimerFault::Exhausted,
        }
    }
}

impl vstd::std_specs::convert::FromSpecImpl<ReleaseError> for TimerFault {
    open spec fn obeys_from_spec() -> bool {
        true
    }

    open spec fn from_spec(error: ReleaseError) -> Self {
        fault_of(error)
    }
}

/// A timer that was started.
#[derive(Clone, Copy, Debug, PartialEq, Eq, Structural)]
pub struct TimerState {
    pub frequency: u64,
    pub schedule: PeriodicSchedule,
    pub last_release: Option<PeriodicRelease>,
    /// Releases whose work ended too late.
    pub completion_misses: u64,
    /// Whether the last control cycle was a safe one.
    pub last_control_safe: Option<bool>,
    /// Control cycles that were safe ones.
    pub safe_releases: u64,
}

/// What can be seen of the timer.
#[derive(Clone, Copy, Debug, PartialEq, Eq, Structural)]
pub struct TimerSnapshot {
    pub frequency: u64,
    pub releases: ReleaseStats,
    pub last_release: Option<PeriodicRelease>,
    pub completion_misses: u64,
    /// Zero, or the code of the first fault.
    pub fault_code: u8,
    pub last_control_safe: Option<bool>,
    pub safe_releases: u64,
}

/// What a timer interrupt does next.
#[derive(Clone, Copy, Debug, PartialEq, Eq, Structural)]
pub enum Tick {
    /// Arm the timer for `arm` and do the work of the release.
    Serve { release: PeriodicRelease, frequency: u64, arm: u64 },
    /// Nothing is due: arm the timer for `arm`.
    Idle { arm: u64 },
    /// Leave the timer off; stop the machine if this is the first fault.
    Stop { first: bool },
}

/// How the work of a release ended.
#[derive(Clone, Copy, Debug, PartialEq, Eq, Structural)]
pub enum Completion {
    InTime,
    /// Too late, and counted.
    Missed,
    /// Leave the timer off; stop the machine if this is the first fault.
    Stop { first: bool },
}

/// The periodic timer. Its view is a [`TimerModel`].
#[derive(Clone, Copy, Debug, PartialEq, Eq, Structural)]
pub struct Timer {
    pub state: Option<TimerState>,
    /// Zero, or the code of the first fault.
    pub fault: u8,
}

/// The timer's state as a value.
pub struct TimerStateModel {
    pub frequency: u64,
    pub schedule: ScheduleModel,
    pub last_release: Option<PeriodicRelease>,
    pub completion_misses: u64,
    pub last_control_safe: Option<bool>,
    pub safe_releases: u64,
}

/// The timer as a value.
pub struct TimerModel {
    pub state: Option<TimerStateModel>,
    pub fault: u8,
}

impl View for TimerState {
    type V = TimerStateModel;

    open spec fn view(&self) -> TimerStateModel {
        TimerStateModel {
            frequency: self.frequency,
            schedule: self.schedule@,
            last_release: self.last_release,
            completion_misses: self.completion_misses,
            last_control_safe: self.last_control_safe,
            safe_releases: self.safe_releases,
        }
    }
}

impl View for Timer {
    type V = TimerModel;

    open spec fn view(&self) -> TimerModel {
        TimerModel {
            state: match self.state {
                Some(state) => Some(state@),
                None => None,
            },
            fault: self.fault,
        }
    }
}

impl TimerModel {
    /// The schedule has a grid.
    pub open spec fn wf(self) -> bool {
        match self.state {
            Some(state) => state.schedule.wf(),
            None => true,
        }
    }

    /// With a fault kept, unless one is.
    pub open spec fn failed(self, fault: TimerFault) -> TimerModel {
        TimerModel {
            fault: if self.fault == 0 {
                fault.spec_code()
            } else {
                self.fault
            },
            ..self
        }
    }

    /// Why the timer cannot be started.
    pub open spec fn start_error(self, frequency: u64, now: u64) -> Option<TimerFault> {
        if self.state is Some || self.fault != 0 {
            Some(TimerFault::AlreadyStarted)
        } else if frequency == 0 || frequency as int % 100 != 0 {
            Some(TimerFault::InvalidPeriod)
        } else if now + frequency / 100 > u64::MAX {
            Some(TimerFault::Exhausted)
        } else {
            None
        }
    }

    /// Why no release can be given.
    pub open spec fn release_fault(self, now: u64) -> Option<TimerFault> {
        if self.fault != 0 {
            Some(TimerFault::Stopped)
        } else {
            match self.state {
                None => Some(TimerFault::NotStarted),
                Some(state) => if now < state.schedule.last_seen {
                    Some(TimerFault::ClockReversed)
                } else if now >= state.schedule.next_deadline && state.schedule.exhausted(now) {
                    Some(TimerFault::Exhausted)
                } else {
                    None
                },
            }
        }
    }

    /// The timer's state after it was asked for a release.
    pub open spec fn released(self, now: u64) -> TimerStateModel {
        let state = self.state->0;
        if now < state.schedule.next_deadline {
            TimerStateModel {
                schedule: ScheduleModel { last_seen: now, ..state.schedule },
                ..state
            }
        } else {
            TimerStateModel {
                schedule: state.schedule.released(now),
                last_release: Some(state.schedule.release_at(now)),
                ..state
            }
        }
    }

    /// What the interrupt at `now` does.
    pub open spec fn tick_of(self, now: u64) -> Tick {
        match self.release_fault(now) {
            Some(_) => Tick::Stop { first: self.fault == 0 },
            None => {
                let state = self.state->0;
                let arm = self.released(now).schedule.next_deadline;
                if now < state.schedule.next_deadline {
                    Tick::Idle { arm }
                } else {
                    Tick::Serve {
                        release: state.schedule.release_at(now),
                        frequency: state.frequency,
                        arm,
                    }
                }
            },
        }
    }

    /// Why a control cycle stops the timer. `safe` is whether it was a safe one,
    /// or nothing if it failed.
    pub open spec fn control_fault(self, safe: Option<bool>) -> Option<TimerFault> {
        match safe {
            None => Some(TimerFault::ManagedControl),
            Some(safe) => match self.state {
                None => Some(TimerFault::NotStarted),
                Some(state) => if safe && state.safe_releases == u64::MAX {
                    Some(TimerFault::Exhausted)
                } else {
                    None
                },
            },
        }
    }

    /// The timer after a control cycle. The cycle itself is noted even if its
    /// count does not fit.
    pub open spec fn controlled(self, safe: Option<bool>) -> TimerModel {
        let noted = match (safe, self.state) {
            (Some(safe), Some(state)) => TimerModel {
                state: Some(
                    TimerStateModel {
                        last_control_safe: Some(safe),
                        safe_releases: if safe && state.safe_releases < u64::MAX {
                            (state.safe_releases + 1) as u64
                        } else {
                            state.safe_releases
                        },
                        ..state
                    },
                ),
                ..self
            },
            _ => self,
        };
        match self.control_fault(safe) {
            Some(fault) => noted.failed(fault),
            None => noted,
        }
    }

    /// How work of a release that ended at `completed` is seen.
    pub open spec fn completion_fault(
        self,
        release: PeriodicRelease,
        completed: u64,
    ) -> Option<TimerFault> {
        if completed < release.actual {
            Some(TimerFault::ClockReversed)
        } else if completed < release.deadline {
            None
        } else {
            match self.state {
                None => Some(TimerFault::NotStarted),
                Some(state) => if state.completion_misses == u64::MAX {
                    Some(TimerFault::Exhausted)
                } else {
                    None
                },
            }
        }
    }
}

impl Timer {
    pub fn new() -> (timer: Self)
        ensures
            timer@ == (TimerModel { state: None, fault: 0 }),
    {
        Timer { state: None, fault: 0 }
    }

    /// Keep a fault, unless one is kept. Tells whether it is the first.
    pub fn timer_failed(&mut self, fault: TimerFault) -> (first: bool)
        requires
            old(self)@.wf(),
        ensures
            final(self)@.wf(),
            first == (old(self)@.fault == 0),
            final(self)@ == old(self)@.failed(fault),
    {
        let first = self.fault == 0;
        if first {
            self.fault = fault.code();
        }
        first
    }

    /// Start the timer, once: the time to arm it for. A clock that cannot count
    /// 10 ms in whole ticks is refused.
    pub fn init_timer(&mut self, frequency: u64, now: u64) -> (result: Result<u64, TimerFault>)
        requires
            old(self)@.wf(),
        ensures
            final(self)@.wf(),
            match old(self)@.start_error(frequency, now) {
                Some(fault) => {
                    &&& result == Err::<u64, TimerFault>(fault)
                    &&& final(self)@ == old(self)@
                },
                None => {
                    let first = (now + frequency / 100) as u64;
                    &&& result == Ok::<u64, TimerFault>(first)
                    &&& final(self)@ == (TimerModel {
                        state: Some(
                            TimerStateModel {
                                frequency,
                                schedule: ScheduleModel::starting(now, frequency / 100),
                                last_release: None,
                                completion_misses: 0,
                                last_control_safe: None,
                                safe_releases: 0,
                            },
                        ),
                        fault: 0,
                    })
                },
            },
    {
        if self.state.is_some() || self.fault != 0 {
            return Err(TimerFault::AlreadyStarted);
        }
        if frequency == 0 || frequency % RELEASES_PER_SECOND != 0 {
            return Err(TimerFault::InvalidPeriod);
        }
        match PeriodicSchedule::new(now, frequency / RELEASES_PER_SECOND) {
            Err(error) => Err(TimerFault::from(error)),
            Ok(schedule) => {
                let arm: u64 = schedule.next_deadline();
                self.state = Some(
                    TimerState {
                        frequency,
                        schedule,
                        last_release: None,
                        completion_misses: 0,
                        last_control_safe: None,
                        safe_releases: 0,
                    },
                );
                Ok(arm)
            },
        }
    }

    /// The release that is due at `now`, and the time to arm the timer for.
    pub fn set_next_timer(&mut self, now: u64) -> (result: Result<
        (Option<PeriodicRelease>, u64),
        TimerFault,
    >)
        requires
            old(self)@.wf(),
        ensures
            final(self)@.wf(),
            match old(self)@.release_fault(now) {
                Some(fault) => {
                    &&& result == Err::<(Option<PeriodicRelease>, u64), TimerFault>(fault)
                    &&& final(self)@ == old(self)@
                },
                None => {
                    let state = old(self)@.released(now);
                    &&& result == Ok::<(Option<PeriodicRelease>, u64), TimerFault>(
                        (
                            if now < old(self)@.state->0.schedule.next_deadline {
                                None
                            } else {
                                state.last_release
                            },
                            state.schedule.next_deadline,
                        ),
                    )
                    &&& final(self)@ == (TimerModel { state: Some(state), fault: 0 })
                },
            },
    {
        if self.fault != 0 {
            return Err(TimerFault::Stopped);
        }
        match self.state {
            None => Err(TimerFault::NotStarted),
            Some(started) => {
                let mut state = started;
                match state.schedule.release(now) {
                    Err(error) => Err(TimerFault::from(error)),
                    Ok(release) => {
                        if release.is_some() {
                            state.last_release = release;
                        }
                        self.state = Some(state);
                        Ok((release, state.schedule.next_deadline()))
                    },
                }
            },
        }
    }

    /// The timer fired at `now`.
    pub fn begin_tick(&mut self, now: u64) -> (tick: Tick)
        requires
            old(self)@.wf(),
        ensures
            final(self)@.wf(),
            tick == old(self)@.tick_of(now),
            final(self)@ == match old(self)@.release_fault(now) {
                Some(fault) => old(self)@.failed(fault),
                None => TimerModel { state: Some(old(self)@.released(now)), fault: 0 },
            },
    {
        match self.set_next_timer(now) {
            Ok((release, arm)) => match release {
                Some(release) => {
                    let frequency: u64 = match self.state {
                        Some(state) => state.frequency,
                        None => 0,
                    };
                    Tick::Serve { release, frequency, arm }
                },
                None => Tick::Idle { arm },
            },
            Err(fault) => Tick::Stop { first: self.timer_failed(fault) },
        }
    }

    /// A control cycle ended. `None` if the timer goes on; otherwise whether the
    /// fault is the first.
    pub fn end_control(&mut self, safe: Option<bool>) -> (stop: Option<bool>)
        requires
            old(self)@.wf(),
        ensures
            final(self)@.wf(),
            stop == match old(self)@.control_fault(safe) {
                Some(_) => Some(old(self)@.fault == 0),
                None => None,
            },
            final(self)@ == old(self)@.controlled(safe),
    {
        let safe = match safe {
            Some(safe) => safe,
            None => {
                return Some(self.timer_failed(TimerFault::ManagedControl));
            },
        };
        match self.state {
            None => Some(self.timer_failed(TimerFault::NotStarted)),
            Some(started) => {
                let mut state = started;
                state.last_control_safe = Some(safe);
                if safe {
                    match state.safe_releases.checked_add(1) {
                        Some(count) => {
                            state.safe_releases = count;
                        },
                        None => {
                            self.state = Some(state);
                            return Some(self.timer_failed(TimerFault::Exhausted));
                        },
                    }
                }
                self.state = Some(state);
                None
            },
        }
    }

    /// The work of a release ended at `completed`. Work that ended late is
    /// counted.
    pub fn end_tick(&mut self, release: PeriodicRelease, completed: u64) -> (completion: Completion)
        requires
            old(self)@.wf(),
        ensures
            final(self)@.wf(),
            match old(self)@.completion_fault(release, completed) {
                Some(fault) => {
                    &&& completion == (Completion::Stop { first: old(self)@.fault == 0 })
                    &&& final(self)@ == old(self)@.failed(fault)
                },
                None => if completed < release.deadline {
                    completion == Completion::InTime && final(self)@ == old(self)@
                } else {
                    &&& completion == Completion::Missed
                    &&& final(self)@ == (TimerModel {
                        state: Some(
                            TimerStateModel {
                                completion_misses: (old(self)@.state->0.completion_misses
                                    + 1) as u64,
                                ..old(self)@.state->0
                            },
                        ),
                        ..old(self)@
                    })
                },
            },
    {
        if completed < release.actual {
            return Completion::Stop { first: self.timer_failed(TimerFault::ClockReversed) };
        }
        if release.completed_in_time(completed) {
            return Completion::InTime;
        }
        match self.state {
            None => Completion::Stop { first: self.timer_failed(TimerFault::NotStarted) },
            Some(started) => {
                let mut state = started;
                match state.completion_misses.checked_add(1) {
                    Some(misses) => {
                        state.completion_misses = misses;
                        self.state = Some(state);
                        Completion::Missed
                    },
                    None => Completion::Stop { first: self.timer_failed(TimerFault::Exhausted) },
                }
            },
        }
    }

    /// What can be seen of the timer, once it was started.
    pub fn timer_snapshot(&self) -> (snapshot: Option<TimerSnapshot>)
        ensures
            snapshot == match self@.state {
                Some(state) => Some(
                    TimerSnapshot {
                        frequency: state.frequency,
                        releases: state.schedule.stats,
                        last_release: state.last_release,
                        completion_misses: state.completion_misses,
                        fault_code: self@.fault,
                        last_control_safe: state.last_control_safe,
                        safe_releases: state.safe_releases,
                    },
                ),
                None => None,
            },
    {
        match self.state {
            Some(state) => Some(
                TimerSnapshot {
                    frequency: state.frequency,
                    releases: state.schedule.stats(),
                    last_release: state.last_release,
                    completion_misses: state.completion_misses,
                    fault_code: self.fault,
                    last_control_safe: state.last_control_safe,
                    safe_releases: state.safe_releases,
                },
            ),
            None => None,
        }
    }
}

/// Law: the first fault is kept whatever fails later, and only it asks for a stop.
pub proof fn law_first_fault_is_kept(timer: TimerModel, first: TimerFault, later: TimerFault)
    requires
        timer.fault == 0,
    ensures
        timer.failed(first).failed(later) == timer.failed(first),
        timer.failed(first).fault == first.spec_code(),
        timer.failed(first).fault != 0,
{
}

/// Law: a timer with a fault serves no release and cannot be started again.
pub proof fn law_fault_stops_releases(timer: TimerModel, frequency: u64, now: u64)
    requires
        timer.fault != 0,
    ensures
        timer.tick_of(now) == (Tick::Stop { first: false }),
        timer.failed(TimerFault::Stopped) == timer,
        timer.start_error(frequency, now) == Some(TimerFault::AlreadyStarted),
{
}

/// Law: the timer is always armed for a time to come, and never moves off the
/// grid on which it was started.
pub proof fn law_armed_for_the_future(timer: TimerModel, now: u64)
    requires
        timer.wf(),
        timer.release_fault(now) is None,
    ensures
        timer.released(now).schedule.next_deadline > now,
        (timer.released(now).schedule.next_deadline - timer.state->0.schedule.next_deadline)
            % (timer.state->0.schedule.period as int) == 0,
{
    let schedule = timer.state->0.schedule;
    let period = schedule.period as int;
    if now >= schedule.next_deadline {
        let late = schedule.lateness(now);
        vstd::arithmetic::div_mod::lemma_fundamental_div_mod(late, period);
        vstd::arithmetic::div_mod::lemma_mod_bound(late, period);
        assert(period * (late / period) == (late / period) * period) by (nonlinear_arith);
        let moved = schedule.missed(now) * period + period;
        assert(moved == (schedule.missed(now) + 1) * period) by (nonlinear_arith)
            requires
                moved == schedule.missed(now) * period + period,
        ;
        assert(late / period >= 0) by {
            vstd::arithmetic::div_mod::lemma_div_pos_is_pos(late, period);
        }
        assert((late / period) * period >= 0) by (nonlinear_arith)
            requires
                late / period >= 0,
                period > 0,
        ;
        assert(schedule.released(now).next_deadline == schedule.next_deadline + moved);
        vstd::arithmetic::div_mod::lemma_mod_multiples_basic(schedule.missed(now) + 1, period);
    } else {
        assert(0int % period == 0) by {
            vstd::arithmetic::div_mod::lemma_small_mod(0, period as nat);
        }
    }
}

/// What an interrupt is for.
#[derive(Clone, Copy, Debug, PartialEq, Eq, Structural)]
pub enum IrqAction {
    /// None is pending: nothing to do, nothing to end.
    Spurious,
    /// The timer: end the interrupt before the scheduler is asked.
    Timer,
    Gpio,
    Unhandled { irq: u32 },
}

/// Tell interrupts apart by what the acknowledge register held.
pub fn handle_irq(platform: Platform, iar: u32) -> (action: IrqAction)
    ensures
        action == if iar % 1024 == SPURIOUS {
            IrqAction::Spurious
        } else if iar % 1024 == TIMER_IRQ {
            IrqAction::Timer
        } else if iar % 1024 == RP1_GPIO_IRQ && platform == Platform::Rpi5 {
            IrqAction::Gpio
        } else {
            IrqAction::Unhandled { irq: iar % 1024 }
        },
{
    let irq: u32 = gic::irq_id_from_iar(iar);
    if irq == SPURIOUS {
        IrqAction::Spurious
    } else if irq == TIMER_IRQ {
        IrqAction::Timer
    } else if irq == RP1_GPIO_IRQ && platform == Platform::Rpi5 {
        IrqAction::Gpio
    } else {
        IrqAction::Unhandled { irq }
    }
}

/// The marker of the first interrupt: `M` and three digits of its number.
pub fn first_irq_marker(irq: u32) -> (marker: Vec<u8>)
    ensures
        marker@ == seq![
            0x4Du8,
            hex_digit(irq as int / 256 % 16),
            hex_digit(irq as int / 16 % 16),
            hex_digit(irq as int % 16),
        ],
{
    let irq: u64 = irq as u64;
    let marker: Vec<u8> = vec![
        0x4D,
        hex_nibble(irq / 256),
        hex_nibble(irq / 16),
        hex_nibble(irq),
    ];
    assert(marker@ =~= seq![
        0x4Du8,
        hex_digit(irq as int / 256 % 16),
        hex_digit(irq as int / 16 % 16),
        hex_digit(irq as int % 16),
    ]);
    marker
}

/// Set up the controller, the timer's interrupt and, on the Pi 5, that of the
/// GPIO bank.
pub fn init(platform: Platform, typer: u32) -> (ops: Vec<RegOp>)
    ensures
        ops@ == gic::init_ops(platform, typer) + timer_irq_ops(platform) + (if platform
            == Platform::Rpi5 {
            gpio_irq_ops()
        } else {
            Seq::empty()
        }),
{
    let mut ops = gic::init(platform, typer);
    ops.push(gic::enable_irq(platform, TIMER_IRQ));
    ops.push(gic::set_priority(platform, TIMER_IRQ, 0x80));
    assert(ops@ =~= gic::init_ops(platform, typer) + timer_irq_ops(platform)) by {
        assert(1u32 << 30u32 == 0x4000_0000u32) by (bit_vector);
        assert(0xFFu32 << 16u32 == 0xFF_0000u32 && 0x80u32 << 16u32 == 0x80_0000u32)
            by (bit_vector);
    }
    let ghost timer = ops@;
    match platform {
        Platform::Rpi5 => {
            ops.push(gic::set_edge_triggered(platform, RP1_GPIO_IRQ));
            ops.push(gic::enable_irq(platform, RP1_GPIO_IRQ));
            ops.push(gic::set_priority(platform, RP1_GPIO_IRQ, 0x80));
            assert(ops@ =~= timer + gpio_irq_ops()) by {
                assert(2u32 << 0u32 == 2u32 && 1u32 << 0u32 == 1u32 && 0xFFu32 << 0u32 == 0xFFu32
                    && 0x80u32 << 0u32 == 0x80u32) by (bit_vector);
            }
        },
        Platform::Virt => {
            assert(ops@ =~= timer + Seq::empty());
        },
    }
    ops
}

/// Tell the controller that an interrupt was handled.
pub fn end_of_interrupt(platform: Platform, iar: u32) -> (op: RegOp)
    ensures
        op == (RegOp::Write { addr: (gic::gicc(platform) + gic::GICC_EOIR) as u64, value: iar }),
{
    gic::end_of_interrupt(platform, iar)
}

/// Interrupt 30 on, of middle priority.
pub open spec fn timer_irq_ops(platform: Platform) -> Seq<RegOp> {
    let d = gic::gicd(platform);
    seq![
        RegOp::Write { addr: (d + 0x100) as u64, value: 0x4000_0000 },
        RegOp::Modify { addr: (d + 0x41C) as u64, clear: 0xFF_0000, set: 0x80_0000 },
    ]
}

/// Interrupt 160 edge triggered, on, of middle priority.
pub open spec fn gpio_irq_ops() -> Seq<RegOp> {
    let d = gic::gicd(Platform::Rpi5);
    seq![
        RegOp::Modify { addr: (d + 0xC28) as u64, clear: 0, set: 2 },
        RegOp::Write { addr: (d + 0x114) as u64, value: 1 },
        RegOp::Modify { addr: (d + 0x4A0) as u64, clear: 0xFF, set: 0x80 },
    ]
}

/// Time from the start of the vector until now, in nanoseconds, modulo 2^64.
pub fn interrupt_latency_ns(now: u64, entry: u64, frequency: u64) -> (ns: u64)
    requires
        frequency > 0,
    ensures
        ns as int == (if now >= entry {
            now - entry
        } else {
            0
        }) * 1_000_000_000 / frequency as int % 0x1_0000_0000_0000_0000,
{
    let ticks: u64 = now.saturating_sub(entry);
    let ns: u128 = ticks as u128 * 1_000_000_000u128 / frequency as u128;
    (ns % 0x1_0000_0000_0000_0000u128) as u64
}

/// Law: the timer releases a hundred times in a second: it starts exactly once, on a clock
/// whose frequency is a multiple of 100, and its first release is a hundredth of a second
/// away.
pub proof fn law_timer_starts(timer: TimerModel, frequency: u64, now: u64)
    ensures
        timer.start_error(frequency, now) is None <==> timer.state is None && timer.fault == 0
            && frequency > 0 && frequency as int % 100 == 0 && now + frequency as int / 100
            <= 0xFFFF_FFFF_FFFF_FFFF,
        timer.start_error(frequency, now) == Some(TimerFault::AlreadyStarted) <==> timer.state
            is Some || timer.fault != 0,
        timer.start_error(frequency, now) == Some(TimerFault::InvalidPeriod) <==> timer.state
            is None && timer.fault == 0 && (frequency == 0 || frequency as int % 100 != 0),
{
}

/// Law: an interrupt serves a release exactly if one is due. It stops the timer if none can
/// be given: after a fault, before the start, on a clock that went back, or with a counter
/// at its end.
pub proof fn law_tick_serves_what_is_due(timer: TimerModel, now: u64)
    ensures
        ({
            let tick = timer.tick_of(now);
            match timer.state {
                Some(state) => {
                    let due = state.schedule.next_deadline <= now;
                    let bad = timer.fault != 0 || now < state.schedule.last_seen || (due
                        && state.schedule.exhausted(now));
                    &&& tick is Stop <==> bad
                    &&& tick is Idle <==> !bad && !due
                    &&& tick is Serve <==> !bad && due
                    &&& tick is Idle ==> tick->Idle_arm == state.schedule.next_deadline
                    &&& tick is Serve ==> {
                        &&& tick->release == state.schedule.release_at(now)
                        &&& tick->Serve_arm == tick->release.deadline
                        &&& tick->frequency == state.frequency
                        &&& timer.released(now).last_release == Some(tick->release)
                    }
                },
                None => tick is Stop,
            }
        }),
        timer.tick_of(now) is Stop ==> (timer.tick_of(now)->Stop_first <==> timer.fault == 0),
        timer.fault == 0 && timer.state is None ==> timer.release_fault(now) == Some(
            TimerFault::NotStarted,
        ),
        timer.fault != 0 ==> timer.release_fault(now) == Some(TimerFault::Stopped),
{
}

/// Law: a control cycle that failed stops the timer. One that ended is noted, and counted
/// exactly if it was a safe one; only a full counter then stops the timer.
pub proof fn law_control_cycle_is_noted(timer: TimerModel, safe: Option<bool>)
    requires
        timer.state is Some,
        timer.fault == 0,
    ensures
        ({
            let before = timer.state->0;
            let after = timer.controlled(safe);
            let full = before.safe_releases == 0xFFFF_FFFF_FFFF_FFFF;
            &&& safe is None ==> after.fault == 8 && after.state == timer.state
            &&& safe == Some(false) ==> after.fault == 0 && after.state->0.last_control_safe
                == Some(false) && after.state->0.safe_releases == before.safe_releases
            &&& safe == Some(true) ==> after.state->0.last_control_safe == Some(true)
            &&& safe == Some(true) && !full ==> after.fault == 0 && after.state->0.safe_releases
                == before.safe_releases + 1
            &&& safe == Some(true) && full ==> after.fault == 6
            &&& after.state is Some && after.state->0.schedule == before.schedule
        }),
{
}

/// Law: work that ended before it began is a clock that went back; work that ended at or
/// after its deadline is counted, and only a full counter then stops the timer.
pub proof fn law_late_work_is_counted(timer: TimerModel, release: PeriodicRelease, completed: u64)
    requires
        timer.state is Some,
    ensures
        timer.completion_fault(release, completed) == Some(TimerFault::ClockReversed)
            <==> completed < release.actual,
        timer.completion_fault(release, completed) == Some(TimerFault::Exhausted)
            <==> release.actual <= completed && release.deadline <= completed
            && timer.state->0.completion_misses == 0xFFFF_FFFF_FFFF_FFFF,
        timer.completion_fault(release, completed) is None <==> release.actual <= completed && (
        completed < release.deadline || timer.state->0.completion_misses < 0xFFFF_FFFF_FFFF_FFFF),
{
}

/// Law: every fault has a code of its own, and none is zero.
pub proof fn law_fault_codes(a: TimerFault, b: TimerFault)
    ensures
        a.spec_code() == b.spec_code() <==> a == b,
        1 <= a.spec_code() <= 8,
        TimerFault::Busy.spec_code() == 1,
        TimerFault::ManagedControl.spec_code() == 8,
        TimerFault::NotStarted.spec_code() == 2,
        TimerFault::AlreadyStarted.spec_code() == 3,
        TimerFault::InvalidPeriod.spec_code() == 4,
        TimerFault::ClockReversed.spec_code() == 5,
        TimerFault::Exhausted.spec_code() == 6,
        TimerFault::Stopped.spec_code() == 7,
        fault_of(ReleaseError::InvalidPeriod) is InvalidPeriod,
        fault_of(ReleaseError::ClockReversed) is ClockReversed,
        fault_of(ReleaseError::Exhausted) is Exhausted,
{
}

/// Law: the low ten bits tell the interrupt: 30 is the timer, 160 on the Pi 5 the GPIO
/// bank, and 1023 is none. Every other is reported with its number.
pub proof fn law_interrupt_numbers(platform: Platform, iar: u32, action: IrqAction)
    requires
        call_ensures(handle_irq, (platform, iar), action),
    ensures
        action is Spurious <==> iar as int % 1024 == 1023,
        action is Timer <==> iar as int % 1024 == 30,
        action is Gpio <==> iar as int % 1024 == 160 && platform is Rpi5,
        action is Unhandled ==> action->irq as int == iar as int % 1024,
{
}

/// Law: the set-up ends with the timer's interrupt on, and on the Pi 5 with that of the
/// GPIO bank edge triggered and on, each with its own priority byte at 0x80.
pub proof fn law_interrupts_are_set_up(platform: Platform)
    ensures
        timer_irq_ops(platform)[0] == (RegOp::Write {
            addr: (gic::gicd(platform) + 0x100 + 30int / 32 * 4) as u64,
            value: 0x4000_0000,
        }),
        timer_irq_ops(platform)[1] == (RegOp::Modify {
            addr: (gic::gicd(platform) + 0x400 + 28) as u64,
            clear: 0xFF_0000,
            set: 0x80_0000,
        }),
        timer_irq_ops(platform).len() == 2,
        gpio_irq_ops()[0] == (RegOp::Modify {
            addr: (gic::gicd(Platform::Rpi5) + 0xC00 + 40) as u64,
            clear: 0,
            set: 2,
        }),
        gpio_irq_ops()[1] == (RegOp::Write {
            addr: (gic::gicd(Platform::Rpi5) + 0x100 + 20) as u64,
            value: 1,
        }),
        gpio_irq_ops()[2] == (RegOp::Modify {
            addr: (gic::gicd(Platform::Rpi5) + 0x400 + 160) as u64,
            clear: 0xFF,
            set: 0x80,
        }),
        gpio_irq_ops().len() == 3,
{
}

/// Law: the latency of an interrupt is the time since its entry, rounded down to whole
/// nanoseconds, and zero if the counter stands before it.
pub proof fn law_latency_rounds_down(now: u64, entry: u64, frequency: u64, ns: u64)
    requires
        frequency > 0,
        now >= entry ==> (now - entry) * 1_000_000_000 < 0x1_0000_0000_0000_0000,
        call_ensures(interrupt_latency_ns, (now, entry, frequency), ns),
    ensures
        now <= entry ==> ns == 0,
        now >= entry ==> ns * frequency <= (now - entry) * 1_000_000_000 < (ns + 1) * frequency,
{
    let f = frequency as int;
    let x = if now >= entry {
        (now - entry) * 1_000_000_000
    } else {
        0
    };
    let q = x / f;
    vstd::arithmetic::div_mod::lemma_fundamental_div_mod(x, f);
    vstd::arithmetic::div_mod::lemma_mod_bound(x, f);
    assert(q * f <= x < (q + 1) * f && 0 <= q <= x) by (nonlinear_arith)
        requires
            x == f * q + x % f,
            0 <= x % f < f,
            0 <= x,
            f > 0,
    ;
    vstd::arithmetic::div_mod::lemma_small_mod(q as nat, 0x1_0000_0000_0000_0000);
}

} // verus!
