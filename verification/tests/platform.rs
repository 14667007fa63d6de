//! Drivers of the Pi 5: registers, pins, the control link and its rearm.

use std::collections::BTreeMap;

use axiomos::link::codec::{encode, Msg, MAX_FRAME};
use axiomos::link::handoff::{Handoff, HandoffError};
use axiomos::link::motor::MotorSide;
use axiomos::link::tx::TxState;
use axiomos::platform::control_link::{
    motor_side, service_events, ControlLink, DiscardReason, LinkEffect, PollPass, RuntimeMode,
    RxRead, ServiceEvent, LINK_TIMEOUT_NS,
};
use axiomos::platform::gpio::{plan_pin, Edge, GpioFunction, GpioPull, PinAction, Rp1Gpio};
use axiomos::platform::memory_map::{
    phys_to_virt, rp1_peripheral_addr, BCM2712_PCIE2_BASE, RP1_GPIO_BASE, RP1_PCIE_APBS_BASE,
    RP1_PERIPHERAL_BASE,
};
use axiomos::platform::mmio::RegOp;
use axiomos::platform::pl011::{InitError, Pl011, ReceiveError};
use axiomos::platform::poll::{PollAction, PollEvent, PollPhase, PollRun};
use axiomos::platform::pwm::Rp1Pwm;
use axiomos::platform::rearm::{drain_error, nanos, Event, PassEnd, PassKind, Rearm, MAX_PASSES};
use axiomos::platform::rearm_pass::{PassAction, PassEvent, PassPhase, PassRun};
use axiomos::platform::rp1_irq::{
    acknowledge_gpio_vector, Next, RouteInit, Rp1InterruptRouteError, PCIE_LINK_STATUS,
    PCIE_LINK_UP, RP1_CHIP_ID, RP1_VENDOR_DEVICE,
};
use axiomos::platform::uart::Rp1Uart;

/// Registers in memory.
struct Registers {
    values: BTreeMap<u64, u32>,
}

impl Registers {
    fn perform(&mut self, op: &RegOp) {
        let vector = RP1_PCIE_APBS_BASE + 8;
        let before = self.read(op.addr());
        let after = op.apply(before);
        if op.addr() == vector + 0x800 {
            *self.values.entry(vector).or_insert(0) |= after;
        } else if op.addr() == vector + 0xC00 {
            *self.values.entry(vector).or_insert(0) &= !after;
        } else {
            self.values.insert(op.addr(), after);
        }
    }

    fn read(&self, addr: u64) -> u32 {
        self.values.get(&addr).copied().unwrap_or(0)
    }
}

fn rp1() -> Registers {
    let config = BCM2712_PCIE2_BASE + 0x8000;
    let mut values = BTreeMap::new();
    values.insert(BCM2712_PCIE2_BASE + PCIE_LINK_STATUS, PCIE_LINK_UP);
    values.insert(config, RP1_VENDOR_DEVICE);
    values.insert(config + 0x34, 0x40);
    values.insert(config + 0x40, 0x5001);
    values.insert(config + 0x50, 0x003C_0011);
    values.insert(config + 0x54, 0x2000);
    values.insert(RP1_PERIPHERAL_BASE, RP1_CHIP_ID);
    Registers { values }
}

fn run_route(mut registers: Registers) -> (Next, Registers) {
    let mut init = RouteInit::new();
    let mut addr = init.first_read();
    loop {
        let (ops, next) = init.on_read(registers.read(addr));
        for op in &ops {
            registers.perform(op);
        }
        match next {
            Next::Read(following) => addr = following,
            end => return (end, registers),
        }
    }
}

#[test]
fn route_is_set_up_and_read_back() {
    let (end, registers) = run_route(rp1());
    match end {
        Next::Done(route) => {
            assert_eq!(route.vendor_device, RP1_VENDOR_DEVICE);
            assert_eq!(route.chip_id, RP1_CHIP_ID);
            assert_eq!(route.msix_cap_offset, 0x50);
            assert_eq!(route.msix_table_size, 61);
            assert_eq!(route.vector0_config & 9, 9);
        }
        other => panic!("unexpected {other:?}"),
    }
    let table = RP1_PERIPHERAL_BASE + 0x80_0000 + 0x2000;
    assert_eq!(registers.read(table), 0xFFFF_F000);
    assert_eq!(registers.read(table + 4), 0xFF);
    assert_eq!(registers.read(table + 12), 0);
    assert_eq!(registers.read(table + 16 + 12), 1);
    let control = registers.read(BCM2712_PCIE2_BASE + 0x8050);
    assert_eq!(control & 0xC000_0000, 0x8000_0000);
}

#[test]
fn route_fails_where_a_stage_is_missing() {
    let config = BCM2712_PCIE2_BASE + 0x8000;
    for (addr, value, error) in [
        (BCM2712_PCIE2_BASE + PCIE_LINK_STATUS, 0x10, Rp1InterruptRouteError::PcieLinkDown(0x10)),
        (config, 0xFFFF_FFFF, Rp1InterruptRouteError::EndpointUnavailable(0xFFFF_FFFF)),
        (config + 0x50, 0x0000_0005, Rp1InterruptRouteError::MissingMsixCapability),
        (RP1_PERIPHERAL_BASE, 7, Rp1InterruptRouteError::Rp1BarUnavailable(7)),
        (
            config + 0x54,
            0x2001,
            Rp1InterruptRouteError::InvalidMsixTable { bir: 1, offset: 0x2000, size: 61 },
        ),
    ] {
        let mut registers = rp1();
        registers.values.insert(addr, value);
        let (end, _) = run_route(registers);
        assert_eq!(end, Next::Failed(error));
    }
}

#[test]
fn pins_are_configured_by_register_accesses() {
    let gpio = Rp1Gpio::new();
    let mut registers = Registers { values: BTreeMap::new() };
    for op in &gpio.configure_output(12, true) {
        registers.perform(op);
    }
    let ctrl = registers.read(gpio.reg_ctrl(12));
    assert_eq!(Rp1Gpio::get_function(ctrl), GpioFunction::Gpio.code());
    registers.perform(&gpio.set_low(12));
    assert_ne!(registers.read(gpio.reg_ctrl(12)), ctrl);
    registers.perform(&gpio.set_high(12));
    assert_eq!(registers.read(gpio.reg_ctrl(12)), ctrl);
    registers.perform(&gpio.set_pull(12, GpioPull::Up));
    assert_eq!(registers.read(gpio.reg_pad(12)) & 0xC, 8);
    assert_eq!(gpio.reg_status(3), RP1_GPIO_BASE + 24);
    assert_eq!(gpio.acknowledge_pcie_interrupt(), acknowledge_gpio_vector());
    assert_eq!(gpio.init_pcie_interrupt_route().first_read(), RouteInit::new().first_read());
}

#[test]
fn pending_pins_are_planned() {
    assert_eq!(plan_pin(0, 3, u32::MAX, false), PinAction::Skip);
    assert_eq!(plan_pin(1 << 3, 3, 0, false), PinAction::Skip);
    assert_eq!(Edge::Rising.flags() | Edge::Falling.flags(), Edge::Both.flags());
}

#[test]
fn duty_is_a_share_of_the_period() {
    let pwm = Rp1Pwm::pwm0();
    let ops = pwm.set_duty_cycle(1, 25, 5_000);
    assert_eq!(ops[0].apply(0), 1_250);
    assert_eq!(pwm.set_duty_cycle(1, 400, 5_000)[0].apply(0), 5_000);
    assert_eq!(pwm.set_frequency(1, 10_000)[0].apply(0), 5_000);
    assert!(pwm.set_frequency(1, 0).is_empty());
}

#[test]
fn uart_refuses_broken_input() {
    assert_eq!(Pl011::read_byte(0x10, 0, 0), Ok(None));
    assert_eq!(Pl011::read_byte(0, 0, 0x41), Ok(Some(0x41)));
    assert_eq!(Pl011::read_byte(0x10, 8, 0), Err(ReceiveError(8)));
    assert_eq!(Pl011::read_byte(0, 0, 0x141), Err(ReceiveError(1)));
    assert!(Pl011::tx_idle(0x80));
    assert!(!Pl011::tx_idle(0x88));
    let uart = Pl011::new(0x1000);
    assert_eq!(uart.try_write_byte(0x20, 1), None);
    assert_eq!(
        uart.try_write_byte(0, 0x55),
        Some(RegOp::Write { addr: 0x1000, value: 0x55 })
    );
    let (ops, result) = uart.init(115_200, 48_000_000, 0x90, 0);
    assert_eq!(result, Ok(()));
    assert!(!ops.is_empty());
    let (ops, result) = uart.init(0, 48_000_000, 0x90, 0);
    assert_eq!((ops.len(), result), (0, Err(InitError::BaudRate)));
    let (_, result) = uart.init(115_200, 48_000_000, 0x98, 0);
    assert_eq!(result, Err(InitError::NotIdle));
    let (_, result) = uart.init(115_200, 48_000_000, 0x90, 3);
    assert_eq!(result, Err(InitError::Receive(ReceiveError(3))));
}

#[test]
fn console_ends_lines_with_both_characters() {
    assert_eq!(Rp1Uart::console_bytes(b"a\nb"), b"a\r\nb");
    assert_eq!(Rp1Uart::try_getc(0x10, 0x41), None);
    assert_eq!(Rp1Uart::try_getc(0, 0x141), Some(0x41));
    assert_eq!(rp1_peripheral_addr(0x10), RP1_PERIPHERAL_BASE + 0x10);
    assert_eq!(phys_to_virt(0x1F_0000_0000), RP1_PERIPHERAL_BASE);
}

fn frame(msg: &Msg) -> Vec<u8> {
    let mut buf = [0u8; MAX_FRAME];
    let n = encode(msg, &mut buf).unwrap();
    buf[..n].to_vec()
}

/// One pass that takes `input` and lets everything out.
fn pass(link: &mut ControlLink, now: u64, input: &[u8]) -> (PollPass, Vec<u8>) {
    let mut run = PollRun::begin(link, now);
    let mut bytes = input.iter();
    let mut out = Vec::new();
    loop {
        let event = match run.action(link) {
            PollAction::ReadUart => PollEvent::Rx(match bytes.next() {
                Some(byte) => RxRead::Byte(*byte),
                None => RxRead::Empty,
            }),
            PollAction::SampleCounter => PollEvent::Sampled { observed: now, sampled: now },
            PollAction::CheckTime => PollEvent::Checked { at: now },
            PollAction::Write(byte) => {
                out.push(byte);
                PollEvent::Wrote { observed: now }
            }
            PollAction::Done => return (run.pass, out),
        };
        run.on(link, event);
    }
}

#[test]
fn silent_link_is_stopped_once_and_heard_again() {
    let mut link = ControlLink::new(RuntimeMode::Legacy);
    let (_, out) = pass(&mut link, 0, &[]);
    assert_eq!(out, frame(&Msg::Estop { assert: true }));
    let (_, out) = pass(&mut link, 1, &[]);
    assert!(out.is_empty());
    assert!(!link.link_alive(1));
    assert_eq!(link.set_motor_pair(100, 100, 1, None), None);

    let (heard, _) = pass(&mut link, 1_000, &frame(&Msg::HeartbeatToPi { seq: 5 }));
    assert_eq!(heard.out.heartbeats, vec![5]);
    assert_eq!(
        service_events(RuntimeMode::Legacy, &heard),
        vec![ServiceEvent::Heartbeat(5)]
    );
    assert!(link.link_alive(1_000));
    assert!(!link.link_alive(1_000 + LINK_TIMEOUT_NS));
    assert!(link.set_motor_pair(100, -100, 1_001, None).is_some());
    let (_, out) = pass(&mut link, 1_002, &[]);
    assert_eq!(out, frame(&Msg::MotorSetpoint { seq: 1, left: 100, right: -100 }));
}

#[test]
fn stop_goes_ahead_of_motion() {
    let mut link = ControlLink::new(RuntimeMode::Legacy);
    pass(&mut link, 1_000, &frame(&Msg::HeartbeatToPi { seq: 1 }));
    let queued = link.set_motor_pair(100, 100, 1_001, None);
    assert!(queued.is_some());
    let (sent, dropped, _) = link.request_estop(true, 1_002);
    assert!(sent);
    assert!(dropped.pending.is_some());
    let (_, out) = pass(&mut link, 1_003, &[]);
    assert_eq!(out, frame(&Msg::Estop { assert: true }));
}

#[test]
fn sensor_stop_line_stops_and_readings_are_numbered() {
    let mut link = ControlLink::new(RuntimeMode::Legacy);
    let reading = Msg::Sensor { ultrasonic_echo_us: 700, estop_line: false, flags: 1 };
    let (first, _) = pass(&mut link, 1_000, &frame(&reading));
    assert_eq!(first.out.sensors.len(), 1);
    assert_eq!(first.out.sensors[0].1, 700);
    let pressed = Msg::Sensor { ultrasonic_echo_us: 700, estop_line: true, flags: 1 };
    let (second, _) = pass(&mut link, 2_000, &frame(&pressed));
    assert!(second.out.estop);
    assert!(service_events(RuntimeMode::Legacy, &second).contains(&ServiceEvent::WatchdogStop));
}

#[test]
fn fault_on_the_line_is_a_lost_link() {
    let mut link = ControlLink::new(RuntimeMode::Legacy);
    pass(&mut link, 1_000, &frame(&Msg::HeartbeatToPi { seq: 1 }));
    let mut broken = ControlLink::begin_poll(2_000);
    link.on_rx(&mut broken, RxRead::Fault);
    assert!(broken.out.link_loss && broken.out.estop);
    assert!(!ControlLink::wants_rx(&broken));
    assert_eq!(link.rx_overflow_count(), 0);
}

#[test]
fn managed_motion_waits_for_the_handoff() {
    let mut link = ControlLink::new(RuntimeMode::Managed);
    pass(&mut link, 1_000, &frame(&Msg::HeartbeatToPi { seq: 1 }));
    assert_eq!(link.set_motor_pair(1, 1, 1_001, None), None);
    assert_eq!(link.set_safe_motor_pair(1_001, None), None);
    let mut broken = ControlLink::begin_poll(2_000);
    link.on_rx(&mut broken, RxRead::Fault);
    assert_eq!(
        service_events(RuntimeMode::Managed, &broken),
        vec![ServiceEvent::ManagedStop]
    );
    assert!(broken
        .effects
        .iter()
        .any(|effect| matches!(effect, LinkEffect::RequestStop)));
    assert!(!broken.effects.iter().any(|effect| matches!(
        effect,
        LinkEffect::MotorDiscarded(_, DiscardReason::Superseded)
    )));
}

#[test]
fn wheels_have_channels() {
    assert_eq!(motor_side(0, 1, false), Some(MotorSide::Left));
    assert_eq!(motor_side(0, 2, false), Some(MotorSide::Right));
    assert_eq!(motor_side(0, 1, true), None);
    assert_eq!(motor_side(0, 3, false), None);
}

#[test]
fn rearm_finishes_old_traffic_then_drains() {
    let mut handoff = Handoff::new();
    let mut tx = TxState::new();
    assert!(matches!(
        Rearm::begin(0, 0, 1_000_000, &mut handoff, &mut tx),
        Err(HandoffError::BadIdentity)
    ));
    let (mut rearm, _) = Rearm::begin(7, 0, 1_000_000, &mut handoff, &mut tx).unwrap();
    assert_eq!(rearm.operation(), 7);
    assert_eq!(rearm.begin_pass(&mut handoff, 1), Ok(PassKind::Exchange));
    // Bytes of the time before have no authority.
    for byte in frame(&Msg::HeartbeatToPi { seq: 1 }) {
        let (event, result) = rearm.rx_read(&mut handoff, Some(byte), 2);
        assert_eq!((event.is_none(), result), (true, Ok(())));
    }
    assert_eq!(rearm.enqueue(&mut handoff, &mut tx).map(|event| event.is_none()), Ok(true));
    assert_eq!(rearm.end_pass(&mut handoff, true, true, 3), Ok(PassEnd::StartDrain));
    assert_eq!(rearm.drain_begun(&mut handoff, 4), Ok(()));
    assert_eq!(rearm.begin_pass(&mut handoff, 5), Ok(PassKind::Drain));
    assert_eq!(rearm.drain_quantum(), 1_000);
    assert_eq!(rearm.drain_clock(6), Ok(6_000));
    assert_eq!(rearm.drain_polled(&mut handoff, true, 7, 8), Ok(()));
    assert_eq!(rearm.begin_pass(&mut handoff, 9), Ok(PassKind::Exchange));
    match rearm.enqueue(&mut handoff, &mut tx) {
        Ok(Some(Event::Framed(framed))) => assert_eq!(framed.operation, Some(7)),
        other => panic!("unexpected {:?}", other.is_ok()),
    }
    assert_eq!(rearm.observe(&mut handoff, 1), Err(HandoffError::ClockReversed));
}

#[test]
fn rearm_converts_ticks_and_errors() {
    assert_eq!(nanos(3, 1_000_000), Ok(3_000));
    assert_eq!(nanos(u64::MAX, 1), Err(HandoffError::Exhausted));
    assert_eq!(drain_error(InitError::ClockRegression), HandoffError::ClockReversed);
    assert_eq!(drain_error(InitError::TimedOut), HandoffError::TimedOut);
    assert_eq!(drain_error(InitError::BaudRate), HandoffError::NotEstablished);
}

#[test]
fn pass_goes_on_only_with_the_event_it_asked_for() {
    let mut link = ControlLink::new(RuntimeMode::Legacy);
    let mut run = PollRun::begin(&link, 5);
    run.on(&mut link, PollEvent::Full);
    assert_eq!(run.phase, PollPhase::Receive);
    run.on(&mut link, PollEvent::Rx(RxRead::Empty));
    assert_eq!(run.phase, PollPhase::Decide);
    run.on(&mut link, PollEvent::Checked { at: 5 });
    assert_eq!(run.action(&link), PollAction::Write(0x7E));
    run.on(&mut link, PollEvent::Full);
    assert_eq!(run.action(&link), PollAction::Done);
}

#[test]
fn pass_takes_and_sends_a_bounded_number_of_bytes() {
    let mut link = ControlLink::new(RuntimeMode::Legacy);
    let (taken, _) = pass(&mut link, 1, &[0xAA; 100]);
    assert_eq!(taken.got, 64);
    assert!(!taken.rx_done);
}

/// What the peer and the line do during a rearm.
struct Line {
    time: u64,
    /// Bytes to be read.
    inbound: Vec<u8>,
    outbound: Vec<u8>,
    /// The drain is over at the next step.
    quiet: bool,
}

fn rearm_pass(
    rearm: &mut Rearm,
    handoff: &mut Handoff,
    tx: &mut TxState,
    line: &mut Line,
) -> (Result<bool, HandoffError>, Vec<Event>) {
    let mut run = PassRun::new(rearm, handoff);
    let mut recorded = Vec::new();
    loop {
        line.time += 1;
        let ticks = line.time;
        let event = match run.action() {
            PassAction::ReadClock => PassEvent::Clock { ticks },
            PassAction::PollDrain => PassEvent::Drained(Ok(line.quiet)),
            PassAction::BeginDrain => PassEvent::DrainBegun(Ok(())),
            PassAction::ReadByte => {
                let byte =
                    if line.inbound.is_empty() { None } else { Some(line.inbound.remove(0)) };
                PassEvent::Byte { byte, ticks }
            }
            PassAction::WriteByte(byte) => {
                line.outbound.push(byte);
                PassEvent::Wrote { written: true, ticks }
            }
            PassAction::ReadIdle => PassEvent::Idle { uart_idle: true, ticks },
            PassAction::Done { settled } => return (Ok(settled), recorded),
            PassAction::Failed(error) => return (Err(error), recorded),
        };
        recorded.extend(run.on(rearm, handoff, tx, event));
    }
}

#[test]
fn rearm_runs_to_the_offer() {
    let mut handoff = Handoff::new();
    let mut tx = TxState::new();
    let (mut rearm, _) = Rearm::begin(7, 0, 1_000_000, &mut handoff, &mut tx).unwrap();
    let mut line = Line {
        time: 0,
        // A stop of the time before has no authority.
        inbound: frame(&Msg::Estop { assert: true }),
        outbound: Vec::new(),
        quiet: false,
    };
    // Old traffic is finished and the drain begins.
    let (result, _) = rearm_pass(&mut rearm, &mut handoff, &mut tx, &mut line);
    assert_eq!(result, Ok(false));
    // The line is not quiet yet, then it is.
    let (result, _) = rearm_pass(&mut rearm, &mut handoff, &mut tx, &mut line);
    assert_eq!(result, Ok(false));
    line.quiet = true;
    let (result, _) = rearm_pass(&mut rearm, &mut handoff, &mut tx, &mut line);
    assert_eq!(result, Ok(false));
    // The session is to be requalified.
    let (result, events) = rearm_pass(&mut rearm, &mut handoff, &mut tx, &mut line);
    assert_eq!(result, Ok(true));
    assert_eq!(line.outbound, frame(&Msg::Requalify { session: 1 }));
    assert_eq!(events.len(), 2);
    line.outbound.clear();
    line.inbound = frame(&Msg::Prepared { session: 1 });
    // The answer starts the last drain, and that the offer.
    let (result, events) = rearm_pass(&mut rearm, &mut handoff, &mut tx, &mut line);
    assert_eq!(result, Ok(false));
    assert!(matches!(events[0], Event::Reply(_, _, Ok(true))));
    let (result, _) = rearm_pass(&mut rearm, &mut handoff, &mut tx, &mut line);
    assert_eq!(result, Ok(false));
    let (result, _) = rearm_pass(&mut rearm, &mut handoff, &mut tx, &mut line);
    assert_eq!(result, Ok(true));
    assert_eq!(line.outbound, frame(&Msg::SessionOffer { session: 1 }));
}

#[test]
fn stale_or_used_up_rearm_fails_before_the_clock_is_read() {
    let mut handoff = Handoff::new();
    let mut tx = TxState::new();
    let (rearm, _) = Rearm::begin(7, 0, 1_000_000, &mut handoff, &mut tx).unwrap();
    assert_eq!(PassRun::new(&rearm, &handoff).action(), PassAction::ReadClock);
    let (other, _) = Rearm::begin(8, 0, 1_000_000, &mut handoff, &mut tx).unwrap();
    assert_eq!(PassRun::new(&rearm, &handoff).action(), PassAction::Failed(HandoffError::Stale));
    assert_eq!(PassRun::new(&other, &handoff).action(), PassAction::ReadClock);
    handoff.disarm();
    assert_eq!(PassRun::new(&other, &handoff).action(), PassAction::Failed(HandoffError::Stale));

    let (mut last, _) = Rearm::begin(9, 0, 1_000_000, &mut handoff, &mut tx).unwrap();
    for _ in 0..MAX_PASSES {
        assert_eq!(PassRun::new(&last, &handoff).action(), PassAction::ReadClock);
        last.begin_pass(&mut handoff, 0).unwrap();
    }
    assert_eq!(PassRun::new(&last, &handoff).action(), PassAction::Failed(HandoffError::TimedOut));
}

#[test]
fn stop_during_a_rearm_ends_it() {
    let mut handoff = Handoff::new();
    let mut tx = TxState::new();
    let (mut rearm, _) = Rearm::begin(7, 0, 1_000_000, &mut handoff, &mut tx).unwrap();
    let mut line =
        Line { time: 0, inbound: Vec::new(), outbound: Vec::new(), quiet: true };
    for _ in 0..2 {
        assert_eq!(rearm_pass(&mut rearm, &mut handoff, &mut tx, &mut line).0, Ok(false));
    }
    line.inbound = frame(&Msg::Estop { assert: true });
    let (result, events) = rearm_pass(&mut rearm, &mut handoff, &mut tx, &mut line);
    assert_eq!(result, Err(HandoffError::NotEstablished));
    assert!(events.is_empty());
    let mut run = PassRun { phase: PassPhase::RxRead { left: 1 } };
    run.on(&mut rearm, &mut handoff, &mut tx, PassEvent::ReadFault);
    assert_eq!(run.action(), PassAction::Failed(HandoffError::NotEstablished));
}
