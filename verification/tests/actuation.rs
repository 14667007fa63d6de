//! Motor pairs and the emergency stop, against a small policy monitor.

use core::cell::{Cell, RefCell};

use axiomos::actuation::{
    apply_decided, apply_gpio_value, apply_pwm_value, guard_gpio, guard_motor, guard_motor_pair,
    guard_motor_pair_with, guard_motor_with, guard_pwm, is_motor_channel, submission_code,
    Actuation, ActuationKind, AuditSource, Authority, ChannelId, EstopCommandResult, EstopEffect,
    EstopStage, LogSource, ManagedMotorPair, MotorPairCaller, MotorPairDecision,
    MotorPairSubmission, MotorPairSubmissionOutcome, Output, PairAction, PairEvent, PairRun,
    ReleaseResult, SafeDrive,
};
use axiomos::arch::mm::Platform;
use axiomos::link::tx::MotorOrigin;

const NOW_NS: u64 = 1_000_000;
const DEADLINE: u64 = 100;
const MANAGED: MotorPairCaller =
    MotorPairCaller::Managed { not_before_ticks: 1, deadline_ticks: DEADLINE };
const LIMITED: i16 = 800;

#[derive(Debug, Clone, Copy, PartialEq, Eq)]
struct PairState {
    left: i16,
    right: i16,
    last_update_ns: u64,
}

/// A monitor that clamps to a limit and answers zero while it is latched.
struct Monitor {
    state: Cell<PairState>,
    kept: Cell<Option<PairState>>,
    latched: Cell<bool>,
    audit: RefCell<Vec<(Authority, AuditSource)>>,
}

impl Monitor {
    fn new() -> Self {
        Monitor {
            state: Cell::new(PairState { left: 0, right: 0, last_update_ns: 0 }),
            kept: Cell::new(None),
            latched: Cell::new(false),
            audit: RefCell::new(Vec::new()),
        }
    }

    fn decide(
        &self,
        left: i32,
        right: i32,
        authority: Authority,
        source: AuditSource,
        now_ns: u64,
    ) -> MotorPairDecision {
        self.kept.set(Some(self.state.get()));
        self.audit.borrow_mut().push((authority, source));
        self.audit.borrow_mut().push((authority, source));
        let limit = i32::from(LIMITED);
        let (l, r) = if self.latched.get() {
            (0, 0)
        } else {
            (left.clamp(-limit, limit) as i16, right.clamp(-limit, limit) as i16)
        };
        self.state.set(PairState { left: l, right: r, last_update_ns: now_ns });
        if self.latched.get() {
            MotorPairDecision::Safe { left: l, right: r }
        } else if i32::from(l) != left || i32::from(r) != right {
            MotorPairDecision::Clamp { left: l, right: r }
        } else {
            MotorPairDecision::Allow { left: l, right: r }
        }
    }
}

fn submit(
    monitor: &Monitor,
    mut run: PairRun,
    read_ns: impl Fn() -> u64,
    mut read_ticks: impl FnMut() -> u64,
    mut enqueue: impl FnMut(MotorPairDecision) -> bool,
) -> MotorPairSubmission {
    loop {
        let event = match run.action() {
            PairAction::ReadPolicyClock => PairEvent::PolicyClock { now_ns: read_ns() },
            PairAction::ReadTicks => PairEvent::Ticks { now: read_ticks() },
            PairAction::Decide { left, right, authority, source, now_ns } => PairEvent::Decided {
                decision: monitor.decide(left, right, authority, source, now_ns),
            },
            PairAction::Enqueue { decision } => PairEvent::Enqueued { accepted: enqueue(decision) },
            PairAction::Restore => {
                monitor.state.set(monitor.kept.get().expect("state was kept"));
                PairEvent::Restored
            }
            PairAction::Done { submission } => return submission,
        };
        run.on(event);
    }
}

#[test]
fn ownership_rejects_before_monitor_clock_or_queue_even_with_managed_source() {
    let monitor = Monitor::new();
    let before = monitor.state.get();
    for (owned, caller) in [
        (
            true,
            MotorPairCaller::Ordinary {
                authority: Authority::Learned,
                source: AuditSource::LearnedBehavior,
            },
        ),
        (
            true,
            MotorPairCaller::Ordinary {
                authority: Authority::Safety,
                source: AuditSource::ManagedControl,
            },
        ),
        (false, MANAGED),
    ] {
        let result = submit(
            &monitor,
            PairRun::begin(owned, 700, -700, caller),
            || panic!("rejected request read policy clock"),
            || panic!("rejected request read deadline clock"),
            |_| panic!("rejected request reached queue"),
        );
        assert_eq!(
            result,
            MotorPairSubmission {
                decision: None,
                outcome: MotorPairSubmissionOutcome::OwnershipRejected,
            }
        );
    }
    assert_eq!(monitor.state.get(), before);
    assert_eq!(monitor.audit.borrow().len(), 0);
}

#[test]
fn managed_clamp_is_distinct_from_queue_acceptance_and_preserves_attribution() {
    let monitor = Monitor::new();
    let mut queued = None;
    let mut clock_reads = 0;
    let result = submit(
        &monitor,
        PairRun::begin(true, 1000, -1000, MANAGED),
        || NOW_NS,
        || {
            clock_reads += 1;
            clock_reads
        },
        |decision| {
            assert!(queued.replace(decision).is_none(), "only one complete pair is queued");
            true
        },
    );
    assert_eq!(clock_reads, 2);
    assert_eq!(
        result.decision,
        Some(MotorPairDecision::Clamp { left: LIMITED, right: -LIMITED })
    );
    assert_eq!(queued, result.decision);
    assert_eq!(result.outcome, MotorPairSubmissionOutcome::Queued);
    assert_eq!(monitor.state.get().left, LIMITED);
    let audit = monitor.audit.borrow();
    assert_eq!(audit.len(), 2);
    assert!(audit
        .iter()
        .all(|r| *r == (Authority::Learned, AuditSource::ManagedControl)));
}

#[test]
fn managed_deadline_and_reversed_clock_never_enqueue_or_consume_slew_credit() {
    for (ticks, outcome, decided) in [
        ([0, 1], MotorPairSubmissionOutcome::ClockReversed, false),
        ([DEADLINE, DEADLINE], MotorPairSubmissionOutcome::DeadlineExpired, false),
        ([1, DEADLINE], MotorPairSubmissionOutcome::DeadlineExpired, true),
        ([2, 1], MotorPairSubmissionOutcome::ClockReversed, true),
    ] {
        let monitor = Monitor::new();
        let before = monitor.state.get();
        let mut samples = ticks.into_iter();
        let result = submit(
            &monitor,
            PairRun::begin(true, 100, -100, MANAGED),
            || NOW_NS,
            || samples.next().expect("at most two physical clock reads"),
            |_| panic!("expired or reversed clock reached queue"),
        );
        assert_eq!(result.outcome, outcome);
        assert_eq!(result.decision.is_some(), decided);
        assert_eq!(monitor.state.get(), before);
        assert_eq!(monitor.audit.borrow().len(), if decided { 2 } else { 0 });
    }
}

#[test]
fn failed_queue_restores_managed_allow_clamp_and_safe_pair_state() {
    for (request, latched) in [((100, -100), false), ((1000, -1000), false), ((100, -100), true)] {
        let monitor = Monitor::new();
        monitor.latched.set(latched);
        let before = monitor.state.get();
        let mut queued = None;
        let result = submit(
            &monitor,
            PairRun::begin(true, request.0, request.1, MANAGED),
            || NOW_NS,
            || 1,
            |decision| {
                queued = Some(decision);
                false
            },
        );
        assert_eq!(result.outcome, MotorPairSubmissionOutcome::QueueFailed);
        assert_eq!(result.decision, queued);
        assert_eq!(monitor.state.get(), before);
        assert_eq!(monitor.latched.get(), latched);
        assert!(matches!(result.decision, Some(MotorPairDecision::Safe { .. })) == latched);
    }
}

#[test]
fn ordinary_path_keeps_signed_input_queue_rollback_and_safe_semantics() {
    let monitor = Monitor::new();
    let ordinary = MotorPairCaller::Ordinary {
        authority: Authority::Learned,
        source: AuditSource::LearnedBehavior,
    };
    let before = monitor.state.get();
    let failed = submit(
        &monitor,
        PairRun::begin(false, i32::MAX, i32::MIN, ordinary),
        || NOW_NS,
        || panic!("ordinary request read managed clock"),
        |decision| {
            let (left, right, code) = decision.apply();
            assert!(left > 0 && right < 0 && code == 0);
            false
        },
    );
    assert_eq!(failed.outcome, MotorPairSubmissionOutcome::QueueFailed);
    assert_eq!(monitor.state.get(), before);
    monitor.latched.set(true);
    let safe = submit(
        &monitor,
        PairRun::begin(false, 100, 100, ordinary),
        || NOW_NS + 1,
        || panic!("ordinary request read managed clock"),
        |decision| {
            assert_eq!(decision, MotorPairDecision::Safe { left: 0, right: 0 });
            false
        },
    );
    assert_eq!(safe.outcome, MotorPairSubmissionOutcome::QueueFailed);
    assert_eq!(
        monitor.state.get(),
        PairState { left: 0, right: 0, last_update_ns: NOW_NS + 1 }
    );
}

#[test]
fn private_entry_requires_owner_legacy_cannot_claim_it_and_trusted_stop_remains_available() {
    let monitor = Monitor::new();
    let mut actuation = Actuation::new(false);
    actuation.set_managed_motor_pair_owner(false);
    let pair = ManagedMotorPair { left: 100, right: -100 };
    let origin = Some(MotorOrigin { cycle: 1, generation: 2, artifact_handle: 3 });
    let unowned = PairRun::begin_managed(
        actuation.managed_motor_pair_owned(),
        pair,
        origin,
        1,
        DEADLINE,
    );
    assert_eq!(
        submit(
            &monitor,
            unowned,
            || panic!("unowned entry read clock"),
            || panic!("unowned entry read clock"),
            |_| panic!("unowned entry reached queue"),
        )
        .outcome,
        MotorPairSubmissionOutcome::OwnershipRejected
    );
    actuation.set_managed_motor_pair_owner(true);
    assert!(actuation.managed_motor_pair_owned());
    let legacy = guard_motor_pair_with(
        actuation.managed_motor_pair_owned(),
        100,
        -100,
        Authority::Learned,
        AuditSource::ManagedControl,
    );
    let refused = submit(&monitor, legacy, || 0, || 0, |_| true);
    assert_eq!(submission_code(refused), -1);
    assert_eq!(monitor.audit.borrow().len(), 0);
    // Without a link the managed wrapper must not fabricate an acceptance.
    let owned = PairRun::begin_managed(true, pair, origin, 1, DEADLINE);
    assert_eq!(
        submit(&monitor, owned, || NOW_NS, || 1, |_| false).outcome,
        MotorPairSubmissionOutcome::QueueFailed
    );
    let (_, code) = actuation.trigger_estop(AuditSource::ManagedControl, false, &Vec::new(), NOW_NS);
    monitor.latched.set(true);
    assert_eq!(code, 0);
    assert!(actuation.managed_motor_pair_owned(), "stopping must not release ownership");
    let learned = guard_motor_pair(actuation.managed_motor_pair_owned(), 100, 100);
    assert_eq!(submission_code(submit(&monitor, learned, || 0, || 0, |_| true)), -1);
}

#[test]
fn managed_pair_without_origin_is_refused() {
    let pair = ManagedMotorPair { left: 1, right: 2 };
    let run = PairRun::begin_managed(true, pair, None, 1, DEADLINE);
    assert_eq!(
        run.action(),
        PairAction::Done {
            submission: MotorPairSubmission {
                decision: None,
                outcome: MotorPairSubmissionOutcome::OwnershipRejected,
            }
        }
    );
}

#[test]
fn queued_pair_returns_the_code_of_the_decision() {
    for (decision, code) in [
        (MotorPairDecision::Allow { left: 1, right: 2 }, 0),
        (MotorPairDecision::Clamp { left: 1, right: 2 }, 0),
        (MotorPairDecision::Safe { left: 0, right: 0 }, -1),
    ] {
        let submission = MotorPairSubmission {
            decision: Some(decision),
            outcome: MotorPairSubmissionOutcome::Queued,
        };
        assert_eq!(submission_code(submission), code);
    }
}

#[test]
fn motor_channels_have_no_single_wheel_entry() {
    assert!(is_motor_channel(Platform::Rpi5, 0, 1, false));
    assert!(is_motor_channel(Platform::Rpi5, 0, 2, false));
    assert!(!is_motor_channel(Platform::Rpi5, 0, 1, true));
    assert!(!is_motor_channel(Platform::Rpi5, 1, 1, false));
    assert!(!is_motor_channel(Platform::Virt, 0, 1, false));
    assert_eq!(guard_pwm(Platform::Rpi5, 0, 1, 50, false), Err(-1));
    assert_eq!(guard_motor(0, 1, 500), -1);
    assert_eq!(guard_motor_with(0, 1, 500, Authority::Operator, AuditSource::Operator), -1);
}

#[test]
fn decided_values_reach_the_channel_that_was_asked_for() {
    let pwm = guard_pwm(Platform::Rpi5, 1, 2, 70, false).unwrap();
    assert_eq!(pwm.authority, Authority::Learned);
    let (output, code) = apply_decided(pwm.request, 40, 0);
    assert_eq!(code, 0);
    match output {
        Some(Output::Pwm(write)) => {
            assert_eq!((write.chip, write.channel, write.percent), (1, 2, 40));
        }
        other => panic!("unexpected {other:?}"),
    }
    assert_eq!(apply_pwm_value(2, 1, 10), None);
    assert_eq!(apply_pwm_value(0, 3, 10), None);
    let gpio = guard_gpio(28, 1);
    assert_eq!(apply_decided(gpio.request, 1, -1), (None, -1));
    assert_ne!(apply_gpio_value(5, 1), apply_gpio_value(5, 0));
    assert_eq!(apply_gpio_value(5, 1), apply_gpio_value(5, 7));
}

fn drives() -> Vec<SafeDrive> {
    vec![
        SafeDrive {
            channel: ChannelId { kind: ActuationKind::PwmDuty, chip: 0, channel: 1 },
            safe_value: 0,
        },
        SafeDrive {
            channel: ChannelId { kind: ActuationKind::GpioLevel, chip: 0, channel: 12 },
            safe_value: 0,
        },
    ]
}

#[test]
fn stop_drives_everything_safe_then_tells_the_link() {
    let mut actuation = Actuation::new(true);
    let all = drives();
    let (effects, code) = actuation.trigger_estop(AuditSource::Watchdog, false, &all, 7);
    assert_eq!(code, 0);
    assert_eq!(
        effects,
        vec![
            EstopEffect::Drive(all[0]),
            EstopEffect::Drive(all[1]),
            EstopEffect::NotifyLink { assert: true },
            EstopEffect::RecordStop(AuditSource::Watchdog),
            EstopEffect::Log {
                event_id: 1,
                source: LogSource::Watchdog,
                stage: EstopStage::Assert,
                ts_ns: 7,
            },
        ]
    );
    let (again, _) = actuation.watchdog_estop_trigger(true, &all, 8);
    assert_eq!(again.len(), 4);
    let (learned, _) = actuation.trigger_estop(AuditSource::LearnedBehavior, false, &all, 9);
    assert_eq!(learned.len(), 4);
}

#[test]
fn operator_commands_are_answered() {
    let mut actuation = Actuation::new(true);
    let (effects, code) = actuation.operator_estop(
        EstopCommandResult::Triggered { drives: drives() },
        false,
        10,
    );
    assert_eq!(code, 0);
    assert_eq!(effects[0], EstopEffect::RequestStop);
    assert_eq!(effects[3], EstopEffect::LocalSafe);
    assert_eq!(effects[4], EstopEffect::NotifyLink { assert: true });
    let (effects, code) = actuation.operator_estop(EstopCommandResult::Released, true, 11);
    assert_eq!(code, 0);
    assert_eq!(
        effects,
        vec![
            EstopEffect::NotifyLink { assert: false },
            EstopEffect::RecordRelease(AuditSource::Operator),
            EstopEffect::Log {
                event_id: 2,
                source: LogSource::Operator,
                stage: EstopStage::Release,
                ts_ns: 11,
            },
        ]
    );
    let (effects, code) = actuation.operator_estop(EstopCommandResult::Released, false, 12);
    assert_eq!((effects, code), (vec![EstopEffect::NotifyLink { assert: false }], 0));
    let (effects, code) = actuation.operator_estop(EstopCommandResult::Denied, true, 13);
    assert_eq!((effects, code), (Vec::new(), -1));
}

#[test]
fn denied_release_changes_nothing() {
    let mut actuation = Actuation::new(true);
    let before = actuation;
    let (effects, code) =
        actuation.release_estop(ReleaseResult::Denied, true, AuditSource::Operator, 1);
    assert_eq!((effects, code), (Vec::new(), -1));
    assert_eq!(actuation, before);
    let (effects, code) =
        actuation.release_estop(ReleaseResult::Released, true, AuditSource::Watchdog, 2);
    assert_eq!(code, 0);
    assert_eq!(effects[1], EstopEffect::RecordRelease(AuditSource::Watchdog));
    assert_eq!(actuation.next_v04_estop_event_id(), 2);
}
