//! Interrupts, processors and task stacks.

use axiomos::arch::context::{
    init_task_stack, init_task_stack_with_arg, SWITCH_FRAME_SIZE, USER_SPSR,
};
use axiomos::arch::cpu::{are_interrupts_enabled, cpu_id, is_supported, jit_sync_lines};
use axiomos::arch::gic::{
    acknowledge, disable_irq, enable_irq, irq_id_from_iar, send_sgi, set_priority, type_register,
    GICD_CTLR, VIRT_GICC_BASE, VIRT_GICD_BASE,
};
use axiomos::arch::idt::{
    page_fault, user_exception, DescriptorTable, ExceptionOutcome, GPRegisters, InterruptFrame,
    InterruptIndex, SelectorErrorCode, UserContext,
};
use axiomos::arch::interrupts::{
    end_of_interrupt, first_irq_marker, handle_irq, init, interrupt_latency_ns, Completion,
    IrqAction, Tick, Timer, TimerFault,
};
use axiomos::arch::mm::Platform;
use axiomos::arch::psci::{cpu_on, outcome, Conduit, CpuOn};
use axiomos::arch::smp::{
    after_cpu_on, ipi_deadline, ipi_wait, keep_waiting, online_deadline, BringUp, CpuCounters,
    IpiWait,
};
use axiomos::arch::x86_64::{targets_of, TlbShootdown};
use axiomos::platform::memory_map::{GICC_BASE, GICD_BASE};
use axiomos::platform::mmio::RegOp;
use axiomos::time::periodic::ReleaseError;

fn started() -> Timer {
    let mut timer = Timer::new();
    assert_eq!(timer.init_timer(1_000, 100), Ok(110));
    timer
}

#[test]
fn timer_starts_once_on_a_clock_with_whole_ticks() {
    for frequency in [0, 99, 150] {
        assert_eq!(Timer::new().init_timer(frequency, 0), Err(TimerFault::InvalidPeriod));
    }
    assert_eq!(Timer::new().init_timer(1_000, u64::MAX), Err(TimerFault::Exhausted));
    let mut timer = started();
    assert_eq!(timer.init_timer(1_000, 200), Err(TimerFault::AlreadyStarted));
}

#[test]
fn timer_serves_releases_and_counts_late_work() {
    let mut timer = started();
    assert_eq!(timer.begin_tick(105), Tick::Idle { arm: 110 });
    let release = match timer.begin_tick(112) {
        Tick::Serve { release, frequency, arm } => {
            assert_eq!((release.sequence, release.scheduled, frequency, arm), (1, 110, 1_000, 120));
            release
        }
        other => panic!("unexpected {other:?}"),
    };
    assert_eq!(timer.end_control(Some(true)), None);
    assert_eq!(timer.end_tick(release, 119), Completion::InTime);
    assert_eq!(timer.end_tick(release, 120), Completion::Missed);
    let snapshot = timer.timer_snapshot().unwrap();
    assert_eq!(snapshot.completion_misses, 1);
    assert_eq!(snapshot.safe_releases, 1);
    assert_eq!(snapshot.last_control_safe, Some(true));
    assert_eq!(snapshot.last_release, Some(release));
    assert_eq!(snapshot.fault_code, 0);
}

#[test]
fn first_fault_stays_and_stops_the_timer() {
    let mut timer = started();
    let release = match timer.begin_tick(112) {
        Tick::Serve { release, .. } => release,
        other => panic!("unexpected {other:?}"),
    };
    assert_eq!(timer.end_tick(release, 111), Completion::Stop { first: true });
    assert_eq!(timer.begin_tick(130), Tick::Stop { first: false });
    assert_eq!(timer.end_control(None), Some(false));
    assert_eq!(timer.timer_snapshot().unwrap().fault_code, TimerFault::ClockReversed.code());
    assert_eq!(timer.init_timer(1_000, 0), Err(TimerFault::AlreadyStarted));
}

#[test]
fn timer_faults_have_codes() {
    let faults = [
        TimerFault::Busy,
        TimerFault::NotStarted,
        TimerFault::AlreadyStarted,
        TimerFault::InvalidPeriod,
        TimerFault::ClockReversed,
        TimerFault::Exhausted,
        TimerFault::Stopped,
        TimerFault::ManagedControl,
    ];
    for (i, fault) in faults.iter().enumerate() {
        assert_eq!(usize::from(fault.code()), i + 1);
    }
    assert_eq!(TimerFault::from(ReleaseError::InvalidPeriod), TimerFault::InvalidPeriod);
    assert_eq!(TimerFault::from(ReleaseError::ClockReversed), TimerFault::ClockReversed);
    assert_eq!(TimerFault::from(ReleaseError::Exhausted), TimerFault::Exhausted);
    let mut timer = Timer::new();
    assert_eq!(timer.begin_tick(1), Tick::Stop { first: true });
    assert_eq!(timer.fault, TimerFault::NotStarted.code());
    let mut timer = Timer::new();
    assert_eq!(timer.end_control(None), Some(true));
    assert_eq!(timer.fault, TimerFault::ManagedControl.code());
    let mut timer = started();
    assert_eq!(timer.set_next_timer(99), Err(TimerFault::ClockReversed));
    assert!(timer.timer_failed(TimerFault::Busy));
    assert_eq!(timer.set_next_timer(200), Err(TimerFault::Stopped));
    assert_eq!(Timer::new().timer_snapshot(), None);
}

#[test]
fn interrupts_are_dispatched_by_their_number() {
    assert_eq!(handle_irq(Platform::Rpi5, 1023), IrqAction::Spurious);
    assert_eq!(handle_irq(Platform::Rpi5, 0x1000 | 30), IrqAction::Timer);
    assert_eq!(handle_irq(Platform::Rpi5, 160), IrqAction::Gpio);
    assert_eq!(handle_irq(Platform::Virt, 160), IrqAction::Unhandled { irq: 160 });
    assert_eq!(irq_id_from_iar(0xFFFF_FC1E), 30);
    assert_eq!(first_irq_marker(30), b"M01E");
    assert_eq!(interrupt_latency_ns(154, 100, 54_000_000), 1_000);
    assert_eq!(interrupt_latency_ns(100, 154, 54_000_000), 0);
}

#[test]
fn controller_is_set_up_from_its_type() {
    let ops = init(Platform::Virt, 0);
    assert_eq!(ops[0], RegOp::Write { addr: VIRT_GICD_BASE + GICD_CTLR, value: 0 });
    assert_eq!(ops[1], RegOp::Write { addr: VIRT_GICD_BASE + 0x180, value: 0xFFFF_FFFF });
    assert_eq!(ops[2], RegOp::Write { addr: VIRT_GICD_BASE + 0x280, value: 0xFFFF_FFFF });
    assert_eq!(ops.len(), 1 + 1 + 1 + 8 + 0 + 2 + 3 + 2);
    let ops = init(Platform::Rpi5, 1);
    assert_eq!(ops.len(), 1 + 2 + 2 + 2 + 16 + 8 + 4 + 3 + 2 + 3);
    assert_eq!(ops[3], RegOp::Write { addr: GICD_BASE + 0x080, value: 0xFFFF_FFFF });
    assert_eq!(
        ops[ops.len() - 1],
        RegOp::Modify { addr: GICD_BASE + 0x4A0, clear: 0xFF, set: 0x80 }
    );
    assert_eq!(type_register(Platform::Rpi5), GICD_BASE + 4);
    assert_eq!(acknowledge(Platform::Virt), VIRT_GICC_BASE + 0xC);
    assert_eq!(
        end_of_interrupt(Platform::Rpi5, 0x41E),
        RegOp::Write { addr: GICC_BASE + 0x10, value: 0x41E }
    );
    assert_eq!(
        enable_irq(Platform::Rpi5, 33),
        RegOp::Write { addr: GICD_BASE + 0x104, value: 2 }
    );
    assert_eq!(
        disable_irq(Platform::Rpi5, 33),
        RegOp::Write { addr: GICD_BASE + 0x184, value: 2 }
    );
    assert_eq!(
        send_sgi(Platform::Rpi5, 2, 1),
        RegOp::Write { addr: GICD_BASE + 0xF00, value: 0x4_0001 }
    );
    assert_eq!(set_priority(Platform::Rpi5, 30, 0x80).apply(0x1122_3344), 0x1180_3344);
}

#[test]
fn task_starts_where_its_frame_says() {
    let (sp, frame) = init_task_stack(0x1_0009, 0x8000, 42, 0xA000);
    assert_eq!(sp, 0x1_0000 - SWITCH_FRAME_SIZE);
    // The trampoline moves x19 to x0 and goes on at x20.
    assert_eq!((frame.x19, frame.x20, frame.x21, frame.x30), (42, 0x8000, 0, 0xA000));
    let (sp, frame) = init_task_stack_with_arg(0x1_0000, 0x8000, 42, 0x9000, 0xA000);
    assert_eq!(sp % 16, 0);
    assert_eq!((frame.x19, frame.x20, frame.x21, frame.x30), (42, 0x8000, 0x9000, 0xA000));
    assert_eq!(USER_SPSR, 0);
}

#[test]
fn cache_lines_cover_the_code() {
    // Data lines of 64 bytes, instruction lines of 16.
    let (data, code) = jit_sync_lines((4 << 16) | 2, 0x1030, 0x30);
    assert_eq!(data, vec![0x1000, 0x1040]);
    assert_eq!(code, vec![0x1030, 0x1040, 0x1050]);
    let (data, _) = jit_sync_lines(4 << 16, 0x1000, 0);
    assert!(data.is_empty());
    assert_eq!(cpu_id(0x8000_0003), 3);
    assert!(is_supported(3));
    assert!(!is_supported(4));
    assert!(are_interrupts_enabled(0x40));
    assert!(!are_interrupts_enabled(0x80));
}

#[test]
fn other_processors_are_brought_up() {
    let call = cpu_on(Platform::Rpi5, 2, 0x8_0000, 7);
    assert_eq!(call.conduit, Conduit::Smc);
    assert_eq!((call.x0, call.x1, call.x2, call.x3), (0xC400_0003, 2, 0x8_0000, 7));
    assert_eq!(cpu_on(Platform::Virt, 1, 0, 0).conduit, Conduit::Hvc);
    assert_eq!(outcome(0), CpuOn::Started);
    assert_eq!(outcome(-4), CpuOn::AlreadyOn);
    assert_eq!(outcome(-2), CpuOn::Failed { status: -2 });
    assert_eq!(after_cpu_on(&vec![-4, -2, -2]), BringUp::Alone);
    assert_eq!(after_cpu_on(&vec![0, -2, 0]), BringUp::Wait { started: 2 });
    assert_eq!(online_deadline(100, 1_000), 300);
    assert!(keep_waiting(3, 299, 300));
    assert!(!keep_waiting(4, 299, 300));
    assert!(!keep_waiting(3, 300, 300));
    assert_eq!(ipi_deadline(100, 1_000), 110);
    assert_eq!(ipi_wait(5, 6, 110, 110), IpiWait::Acknowledged);
    assert_eq!(ipi_wait(5, 5, 110, 110), IpiWait::TimedOut);
    assert_eq!(ipi_wait(5, 5, 109, 110), IpiWait::Wait);
    let mut counters = CpuCounters::new();
    counters.note_online();
    assert_eq!(counters.online, 2);
    assert!(counters.note_secondary_tick(1));
    assert!(!counters.note_secondary_tick(1));
    assert!(counters.note_secondary_tick(2));
    counters.note_ipi(3);
    assert_eq!(counters.timer_ticks, [0, 2, 1, 0]);
    assert_eq!(counters.ipi_counts, [0, 0, 0, 1]);
}

#[test]
fn shootdown_waits_for_all_targets() {
    let mut tlb = TlbShootdown::new();
    let (targets, epoch) = tlb.shootdown_tlb(0b1111, 0b1011, 1);
    assert_eq!((targets, epoch), (0b1001, 1));
    assert_eq!(targets_of(targets), vec![0, 3]);
    assert!(!tlb.targets_acknowledged(targets, epoch));
    tlb.acknowledge_latest_tlb_epoch(0);
    assert!(!tlb.targets_acknowledged(targets, epoch));
    tlb.handle_tlb_shootdown_ipi(3);
    assert!(tlb.targets_acknowledged(targets, epoch));
    let (_, later) = tlb.shootdown_tlb(1, 1, 1);
    assert_eq!(later, 2);
    assert!(tlb.targets_acknowledged(targets, epoch));
    assert!(!tlb.targets_acknowledged(targets, later));
    assert!(tlb.targets_acknowledged(0, later));
    assert!(tlb.complete());
    assert!(!tlb.complete());
}

#[test]
fn x86_exceptions_end_the_task_or_the_kernel() {
    assert_eq!(InterruptIndex::Timer.as_u8(), 0x20);
    assert_eq!(InterruptIndex::LapicErr.as_usize(), 0x31);
    assert_eq!(InterruptIndex::Syscall.as_u8(), 0x80);
    assert_eq!(InterruptIndex::Spurious.as_u8(), 0xff);
    let user = InterruptFrame {
        instruction_pointer: 1,
        code_segment: 0x1B,
        cpu_flags: 2,
        stack_pointer: 3,
        stack_segment: 0x23,
    };
    let mut kernel = user;
    kernel.code_segment = 0x08;
    assert_eq!(user_exception(&user, true), ExceptionOutcome::TerminateTask);
    assert_eq!(user_exception(&user, false), ExceptionOutcome::Panic);
    assert_eq!(user_exception(&kernel, true), ExceptionOutcome::Panic);
    assert_eq!(
        page_fault(&kernel, true, true, true),
        (ExceptionOutcome::KernelStackOverflow, true)
    );
    assert_eq!(page_fault(&user, true, true, true), (ExceptionOutcome::TerminateTask, true));
    assert_eq!(page_fault(&kernel, false, true, true), (ExceptionOutcome::Panic, false));
    let code = SelectorErrorCode::from(0x2Du32);
    assert!(code.external());
    assert_eq!((code.tbl(), code.index(), code.table()), (2, 5, DescriptorTable::Ldt));
    assert_eq!(SelectorErrorCode::from_u64(0).table(), DescriptorTable::Gdt);
    assert_eq!(SelectorErrorCode::from_u64(6).table(), DescriptorTable::Idt);
    let mut regs = GPRegisters::default();
    regs.rax = 9;
    regs.rdi = 1;
    regs.r9 = 6;
    let mut context = UserContext { regs, frame: user };
    let request = context.syscall_request();
    assert_eq!((request.number, request.arg1, request.arg6), (9, 1, 6));
    context.set_syscall_result(77);
    assert_eq!(context.regs.rax, 77);
    assert_eq!(context.regs.rdi, 1);
}
