//! The hardware bench.

use axiomos::actuation::{ActuationKind, EstopAction};
use axiomos::bench::{
    added_ns, arm_reflex_output, bench_source, cycles_to_ns, derive_request, enable_irqs, is_bench_pwm_output,
    lower, prepare, quiesce, Bench, BenchEvent, BenchFailure, BenchInit, BenchSource,
    BenchStep, ButtonReport, Corpus,
    DecisionKind, EdgeReport, Envelope, ReflexOutput, Verdict, BENCH_PWM_PIN, CORPUS_SIZE,
};
use axiomos::platform::gpio::Rp1GpioInterruptState;
use axiomos::platform::mmio::RegOp;

#[test]
fn cycles_are_converted_exactly() {
    assert_eq!(cycles_to_ns(54, 54_000_000), 1_000);
    assert_eq!(cycles_to_ns(1, 54_000_000), 18);
    assert_eq!(cycles_to_ns(5, 0), 0);
    assert_eq!(cycles_to_ns(54_000_000 * 3 + 27, 54_000_000), 3_000_000_500);
    assert_eq!(added_ns(10, 4), -6);
}

#[test]
fn edge_is_reported_once() {
    let mut bench = Bench::new(ReflexOutput::Gpio, false);
    assert_eq!(bench.report_edge_to_actuate(1, 2, 1_000_000_000), None);
    bench.mark_gpio_irq_entry(100);
    assert_eq!(
        bench.report_edge_to_actuate(7, 150, 1_000_000_000),
        Some(EdgeReport { sample_id: 1, monitor_ns: 7, ns: 50 })
    );
    assert_eq!(bench.report_edge_to_actuate(7, 150, 1_000_000_000), None);
    let (sample, request) = bench.rearm_reflex_after_sample().unwrap();
    assert_eq!(sample, 1);
    assert_eq!(request, arm_reflex_output(ReflexOutput::Gpio));
    assert!(bench.rearm_reflex_after_sample().is_none());
}

#[test]
fn button_reports_its_latency() {
    let mut bench = Bench::new(ReflexOutput::Pwm, true);
    bench.mark_gpio_irq_entry(100);
    let (entry, action) = bench.handle_estop_button(true);
    assert_eq!((entry, action), (Some((1, 100)), EstopAction::Trigger));
    assert_eq!(bench.take_gpio_irq_entry(), None);
    assert_eq!(
        bench.estop_triggered(entry, 0, Some(130), 1_000_000_000),
        Some(ButtonReport::Latency { sample_id: 1, ns: 30 })
    );
    assert_eq!(
        bench.estop_triggered(entry, -1, Some(130), 1_000_000_000),
        Some(ButtonReport::Failed { sample_id: 1 })
    );
    assert_eq!(
        bench.estop_triggered(entry, 0, None, 1_000_000_000),
        Some(ButtonReport::Failed { sample_id: 1 })
    );
    assert_eq!(bench.estop_triggered(None, 0, Some(130), 1_000_000_000), None);
    let (none, action) = bench.handle_estop_button(false);
    assert_eq!((none, action), (None, EstopAction::Release));
    assert!(bench.estop_released(none, 0).is_none());
    assert!(bench.estop_released(entry, -1).is_none());
    let (sample, request) = bench.estop_released(entry, 0).unwrap();
    assert_eq!(sample, 1);
    assert_eq!(request.unwrap().request.value, 50);
    let mut plain = Bench::new(ReflexOutput::Pwm, false);
    assert!(plain.estop_released(entry, 0).is_none());
}

#[test]
fn route_is_proven_once() {
    let mut bench = Bench::new(ReflexOutput::Gpio, false);
    assert!(!bench.report_gpio_irq_probe(1 << 24, 0, 1).proven);
    assert!(!bench.report_gpio_irq_probe(1 << 23, 1, 1).proven);
    assert!(!bench.report_gpio_irq_probe(1 << 23, 0, 2).proven);
    assert!(bench.report_gpio_irq_probe(1 << 23, 0, 1).proven);
    assert!(!bench.report_gpio_irq_probe(1 << 23, 0, 1).proven);
    for _ in 5..8 {
        assert!(bench.report_gpio_irq_probe(0, 0, 0).diagnose);
    }
    assert!(!bench.report_gpio_irq_probe(0, 0, 0).diagnose);
}

#[test]
fn corpus_is_drawn_and_counted() {
    let mut corpus = Corpus::new();
    let first = corpus.next_request().unwrap();
    let seed = 0x5652_3033_4300_0001u64;
    let state = seed.wrapping_mul(6364136223846793005).wrapping_add(1442695040888963407);
    assert_eq!(first, derive_request((state >> 33) as u32));
    corpus.note(Verdict {
        kind: DecisionKind::Clamp,
        applied: 5,
        code: 0,
        envelope: Some(Envelope { min: 0, max: 4 }),
    });
    assert_eq!((corpus.escapes, corpus.safed, corpus.clamps), (1, 0, 1));
    let mut drawn = 1;
    while let Some(request) = corpus.next_request() {
        drawn += 1;
        match request.ch.kind {
            ActuationKind::PwmDuty => assert!(!is_bench_pwm_output(0, request.ch.channel)),
            ActuationKind::GpioLevel => {
                assert!(![12, 23, 24].contains(&request.ch.channel));
            }
        }
        corpus.note(Verdict { kind: DecisionKind::Reject, applied: 0, code: -1, envelope: None });
    }
    assert_eq!(drawn, CORPUS_SIZE);
    assert_eq!((corpus.escapes, corpus.safed, corpus.clamps), (1, 999, 1));
}

#[test]
fn requests_follow_from_the_drawn_number() {
    let pwm = derive_request(4);
    assert_eq!((pwm.ch.kind, pwm.ch.channel, pwm.value), (ActuationKind::PwmDuty, 3, 4));
    let gpio = derive_request(25);
    assert_eq!((gpio.ch.kind, gpio.ch.channel, gpio.value), (ActuationKind::GpioLevel, 5, 0));
    let gpio = derive_request(7);
    assert_eq!((gpio.ch.channel, gpio.value), (3, u32::MAX));
    assert_eq!(derive_request(6).ch.channel, 99);
    assert_eq!(derive_request(10).ch.channel, 0);
}

fn readback(control: u32, pad: u32, enable: u32) -> BenchEvent {
    BenchEvent::Readback {
        sensor: Rp1GpioInterruptState {
            status: 0,
            control,
            pad,
            raw_interrupts: 0,
            pcie_enable: enable,
            pcie_status: 0,
        },
    }
}

#[test]
fn set_up_ends_ready() {
    let mut init = BenchInit::new(false);
    assert_eq!(init.step, BenchStep::Quiesce);
    assert_eq!(init.on(BenchEvent::Done), BenchStep::Route);
    assert_eq!(init.on(BenchEvent::Done), BenchStep::Route);
    assert_eq!(init.on(BenchEvent::Route { complete: true }), BenchStep::Contain);
    assert_eq!(init.on(BenchEvent::Done), BenchStep::Lower);
    assert_eq!(init.on(BenchEvent::Done), BenchStep::Prepare);
    assert_eq!(init.on(BenchEvent::Done), BenchStep::ReadButton);
    assert_eq!(init.on(BenchEvent::Button { high: false }), BenchStep::Button { pressed: true });
    assert_eq!(init.on(BenchEvent::Done), BenchStep::EnableIrqs);
    assert_eq!(init.on(BenchEvent::Done), BenchStep::Readback { pressed: true });
    assert_eq!(
        init.on(readback(1 << 21, 1 << 6, 3 << 23)),
        BenchStep::Load { pressed: true }
    );
    assert_eq!(
        init.on(BenchEvent::Loaded { program: Some(9) }),
        BenchStep::Attach { pressed: true, program: 9 }
    );
    assert_eq!(
        init.on(BenchEvent::Attached { accepted: true }),
        BenchStep::Arm { pressed: true, program: 9 }
    );
    assert_eq!(
        init.on(BenchEvent::Armed { code: -1 }),
        BenchStep::Ready { pressed: true, program: 9, armed: -1 }
    );
}

#[test]
fn set_up_fails_at_each_stage() {
    let at = |step: BenchStep| BenchInit { step, paired: false, pressed: false };
    assert_eq!(
        at(BenchStep::Route).on(BenchEvent::Route { complete: false }),
        BenchStep::Failed(BenchFailure::Route)
    );
    for event in [readback(0, 1 << 6, 3 << 23), readback(1 << 21, 0, 3 << 23)] {
        assert_eq!(
            at(BenchStep::Readback { pressed: false }).on(event),
            BenchStep::Failed(BenchFailure::Readback)
        );
    }
    assert_eq!(
        at(BenchStep::Readback { pressed: false }).on(readback(1 << 21, 1 << 6, 1 << 23)),
        BenchStep::Failed(BenchFailure::Readback)
    );
    let load = BenchStep::Load { pressed: false };
    assert_eq!(
        at(load).on(BenchEvent::ManagerMissing),
        BenchStep::Failed(BenchFailure::ManagerMissing)
    );
    assert_eq!(
        at(load).on(BenchEvent::Loaded { program: None }),
        BenchStep::Failed(BenchFailure::Load)
    );
    assert_eq!(
        at(BenchStep::Attach { pressed: false, program: 1 })
            .on(BenchEvent::Attached { accepted: false }),
        BenchStep::Failed(BenchFailure::Attach)
    );
}

#[test]
fn pins_are_prepared() {
    assert_eq!(quiesce().len(), 28 * 3);
    let gpio = prepare(ReflexOutput::Gpio);
    assert_eq!(gpio.len(), 3 + 3 + 2);
    let low = lower();
    assert_eq!(low.len(), 4);
    let pwm = prepare(ReflexOutput::Pwm);
    assert_eq!(pwm.len(), gpio.len() + 4 + 1 + 2 + 2 + 2 + 3);
    assert_eq!(enable_irqs().len(), 20);
    assert_eq!(low[0].addr() & 0xFFF, u64::from(BENCH_PWM_PIN) * 8 + 4);
    assert!(matches!(low[0], RegOp::Modify { .. }));
}

#[test]
fn writes_are_timed_between_the_low_output_and_the_carrier() {
    let mut init = BenchInit::new(true);
    init.on(BenchEvent::Done);
    init.on(BenchEvent::Route { complete: true });
    assert_eq!(init.on(BenchEvent::Done), BenchStep::Lower);
    assert_eq!(init.on(BenchEvent::Done), BenchStep::Pair);
    assert_eq!(init.on(BenchEvent::Done), BenchStep::Prepare);
}

#[test]
fn interrupt_with_one_source_is_stamped() {
    let sensor = 1 << 23;
    let button = 1 << 24;
    assert_eq!(bench_source(0), BenchSource::Other);
    assert_eq!(bench_source(!(sensor | button)), BenchSource::Other);
    assert_eq!(bench_source(sensor | 1), BenchSource::Single);
    assert_eq!(bench_source(button), BenchSource::Single);
    assert_eq!(
        bench_source(u32::MAX),
        BenchSource::Ambiguous { pending: sensor | button }
    );

    let mut bench = Bench::new(ReflexOutput::Gpio, false);
    assert_eq!(bench.begin_gpio_irq(1, 50), BenchSource::Other);
    assert_eq!(bench.take_gpio_irq_entry(), None);
    assert!(matches!(
        bench.begin_gpio_irq(sensor | button, 60),
        BenchSource::Ambiguous { .. }
    ));
    assert_eq!(bench.take_gpio_irq_entry(), None);
    assert_eq!(bench.begin_gpio_irq(sensor, 70), BenchSource::Single);
    assert_eq!(bench.take_gpio_irq_entry(), Some((1, 70)));
}

#[test]
fn enabled_interrupts_are_read_back() {
    let ops = enable_irqs();
    assert_eq!(ops.len(), 20);
    for half in ops.chunks(10) {
        assert!(half[..4].iter().all(|op| op.writes()));
        assert!(half[4..].iter().all(|op| matches!(op, RegOp::Readback { .. })));
        assert!(half[4..].iter().all(|op| op.reads() && op.apply(7) == 7));
    }
    // The control register that was changed is among them.
    assert_eq!(ops[5].addr(), ops[1].addr());
}
