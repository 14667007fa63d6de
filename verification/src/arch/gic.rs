//! The interrupt controller: a distributor, which knows all interrupts, and an
//! interface for each processor. Registers are 32 bits wide.

use vstd::prelude::*;

use crate::arch::mm::Platform;
use crate::platform::memory_map::{GICC_BASE, GICD_BASE};
use crate::platform::mmio::RegOp;

verus! {

/// Distributor registers.
pub const GICD_CTLR: u64 = 0x000;

pub const GICD_TYPER: u64 = 0x004;

pub const GICD_IGROUPR: u64 = 0x080;

pub const GICD_ISENABLER: u64 = 0x100;

pub const GICD_ICENABLER: u64 = 0x180;

pub const GICD_ICPENDR: u64 = 0x280;

pub const GICD_IPRIORITYR: u64 = 0x400;

pub const GICD_ITARGETSR: u64 = 0x800;

pub const GICD_ICFGR: u64 = 0xC00;

pub const GICD_SGIR: u64 = 0xF00;

/// Processor interface registers.
pub const GICC_CTLR: u64 = 0x000;

pub const GICC_PMR: u64 = 0x004;

pub const GICC_IAR: u64 = 0x00C;

pub const GICC_EOIR: u64 = 0x010;

/// Physical timer.
pub const TIMER_PHYS: u32 = 30;

/// Virtual timer.
pub const TIMER_VIRT: u32 = 27;

/// No interrupt is pending.
pub const SPURIOUS: u32 = 1023;

/// The controller of the emulated board, in the kernel's view of memory.
pub const VIRT_GICD_BASE: u64 = 0x0800_0000;

pub const VIRT_GICC_BASE: u64 = 0x0801_0000;

/// Interrupts that the controller can have.
pub const MAX_IRQ: u32 = 1024;

pub open spec fn gicd(platform: Platform) -> u64 {
    match platform {
        Platform::Virt => VIRT_GICD_BASE,
        Platform::Rpi5 => GICD_BASE,
    }
}

pub open spec fn gicc(platform: Platform) -> u64 {
    match platform {
        Platform::Virt => VIRT_GICC_BASE,
        Platform::Rpi5 => GICC_BASE,
    }
}

fn distributor(platform: Platform) -> (base: u64)
    ensures
        base == gicd(platform),
{
    match platform {
        Platform::Virt => VIRT_GICD_BASE,
        Platform::Rpi5 => GICD_BASE,
    }
}

fn interface(platform: Platform) -> (base: u64)
    ensures
        base == gicc(platform),
{
    match platform {
        Platform::Virt => VIRT_GICC_BASE,
        Platform::Rpi5 => GICC_BASE,
    }
}

/// The type register of the distributor.
pub fn type_register(platform: Platform) -> (addr: u64)
    ensures
        addr == gicd(platform) + GICD_TYPER,
{
    distributor(platform) + GICD_TYPER
}

/// Interrupts that the type register tells of.
pub open spec fn irq_lines(typer: u32) -> int {
    (typer as int % 32 + 1) * 32
}

/// The same value in `count` registers from `addr` on.
pub open spec fn fill(addr: int, count: int, value: u32) -> Seq<RegOp> {
    Seq::new(
        if count > 0 {
            count as nat
        } else {
            0
        },
        |i: int| RegOp::Write { addr: (addr + i * 4) as u64, value },
    )
}

/// Append the same value in `count` registers from `addr` on.
fn push_fill(ops: &mut Vec<RegOp>, addr: u64, count: u64, value: u32)
    requires
        count <= 0x1_0000,
        addr + count * 4 <= u64::MAX,
    ensures
        final(ops)@ == old(ops)@ + fill(addr as int, count as int, value),
{
    let ghost start = ops@;
    let mut i: u64 = 0;
    assert(ops@ =~= start + fill(addr as int, 0, value));
    while i < count
        invariant
            i <= count <= 0x1_0000,
            addr + count * 4 <= u64::MAX,
            ops@ == start + fill(addr as int, i as int, value),
        decreases count - i,
    {
        ops.push(RegOp::Write { addr: addr + i * 4, value });
        assert(ops@ =~= start + fill(addr as int, i + 1, value));
        i = i + 1;
    }
}

/// The writes that set the controller up: everything off, not pending, of the
/// lowest priority, level triggered and for the first processor; then on.
pub open spec fn init_ops(platform: Platform, typer: u32) -> Seq<RegOp> {
    let d = gicd(platform) as int;
    let c = gicc(platform) as int;
    let lines = irq_lines(typer);
    let groups = if platform == Platform::Rpi5 {
        fill(d + GICD_IGROUPR, lines / 32, 0xFFFF_FFFF)
    } else {
        Seq::empty()
    };
    seq![RegOp::Write { addr: (d + GICD_CTLR) as u64, value: 0 }] + fill(
        d + GICD_ICENABLER,
        lines / 32,
        0xFFFF_FFFF,
    ) + groups + fill(d + GICD_ICPENDR, lines / 32, 0xFFFF_FFFF) + fill(
        d + GICD_IPRIORITYR,
        lines / 4,
        0xFFFF_FFFF,
    ) + fill(d + GICD_ITARGETSR + 32, lines / 4 - 8, 0x0101_0101) + fill(
        d + GICD_ICFGR,
        lines / 16,
        0,
    ) + seq![
        RegOp::Write { addr: (d + GICD_CTLR) as u64, value: 3 },
        RegOp::Write { addr: (c + GICC_PMR) as u64, value: 0xFF },
        RegOp::Write { addr: (c + GICC_CTLR) as u64, value: 3 },
    ]
}

/// Set the controller up. `typer` is its type register. On the Pi 5 all
/// interrupts go into the group that the kernel can acknowledge there; on the
/// emulated board they stay in theirs.
pub fn init(platform: Platform, typer: u32) -> (ops: Vec<RegOp>)
    ensures
        ops@ == init_ops(platform, typer),
{
    let d: u64 = distributor(platform);
    let c: u64 = interface(platform);
    let lines: u64 = (typer as u64 % 32 + 1) * 32;
    let mut ops: Vec<RegOp> = Vec::new();
    ops.push(RegOp::Write { addr: d + GICD_CTLR, value: 0 });
    push_fill(&mut ops, d + GICD_ICENABLER, lines / 32, 0xFFFF_FFFF);
    let ghost before = ops@;
    match platform {
        Platform::Rpi5 => push_fill(&mut ops, d + GICD_IGROUPR, lines / 32, 0xFFFF_FFFF),
        Platform::Virt => {},
    }
    let ghost groups = if platform == Platform::Rpi5 {
        fill(d + GICD_IGROUPR, lines as int / 32, 0xFFFF_FFFF)
    } else {
        Seq::empty()
    };
    assert(ops@ =~= before + groups);
    push_fill(&mut ops, d + GICD_ICPENDR, lines / 32, 0xFFFF_FFFF);
    push_fill(&mut ops, d + GICD_IPRIORITYR, lines / 4, 0xFFFF_FFFF);
    push_fill(&mut ops, d + GICD_ITARGETSR + 32, lines / 4 - 8, 0x0101_0101);
    push_fill(&mut ops, d + GICD_ICFGR, lines / 16, 0);
    ops.push(RegOp::Write { addr: d + GICD_CTLR, value: 3 });
    ops.push(RegOp::Write { addr: c + GICC_PMR, value: 0xFF });
    ops.push(RegOp::Write { addr: c + GICC_CTLR, value: 3 });
    assert(ops@ =~= init_ops(platform, typer));
    ops
}

/// The writes that set up the interface of one more processor: its own
/// interrupts into the group that the kernel acknowledges, and on.
pub fn init_per_cpu(platform: Platform) -> (ops: Vec<RegOp>)
    ensures
        ops@ == (if platform == Platform::Rpi5 {
            seq![RegOp::Write { addr: (gicd(platform) + GICD_IGROUPR) as u64, value: 0xFFFF_FFFF }]
        } else {
            Seq::empty()
        }) + seq![
            RegOp::Write { addr: (gicc(platform) + GICC_PMR) as u64, value: 0xFF },
            RegOp::Write { addr: (gicc(platform) + GICC_CTLR) as u64, value: 3 },
        ],
{
    let mut ops: Vec<RegOp> = Vec::new();
    match platform {
        Platform::Rpi5 => {
            ops.push(
                RegOp::Write { addr: distributor(platform) + GICD_IGROUPR, value: 0xFFFF_FFFF },
            );
        },
        Platform::Virt => {},
    }
    ops.push(RegOp::Write { addr: interface(platform) + GICC_PMR, value: 0xFF });
    ops.push(RegOp::Write { addr: interface(platform) + GICC_CTLR, value: 3 });
    assert(ops@ =~= (if platform == Platform::Rpi5 {
        seq![RegOp::Write { addr: (gicd(platform) + GICD_IGROUPR) as u64, value: 0xFFFF_FFFF }]
    } else {
        Seq::empty()
    }) + seq![
        RegOp::Write { addr: (gicc(platform) + GICC_PMR) as u64, value: 0xFF },
        RegOp::Write { addr: (gicc(platform) + GICC_CTLR) as u64, value: 3 },
    ]);
    ops
}

/// Enable an interrupt.
pub fn enable_irq(platform: Platform, irq: u32) -> (op: RegOp)
    requires
        irq < MAX_IRQ,
    ensures
        op == (RegOp::Write {
            addr: (gicd(platform) + GICD_ISENABLER + irq as int / 32 * 4) as u64,
            value: 1u32 << (irq % 32),
        }),
{
    RegOp::Write {
        addr: distributor(platform) + GICD_ISENABLER + (irq / 32) as u64 * 4,
        value: 1u32 << (irq % 32),
    }
}

/// Disable an interrupt.
pub fn disable_irq(platform: Platform, irq: u32) -> (op: RegOp)
    requires
        irq < MAX_IRQ,
    ensures
        op == (RegOp::Write {
            addr: (gicd(platform) + GICD_ICENABLER + irq as int / 32 * 4) as u64,
            value: 1u32 << (irq % 32),
        }),
{
    RegOp::Write {
        addr: distributor(platform) + GICD_ICENABLER + (irq / 32) as u64 * 4,
        value: 1u32 << (irq % 32),
    }
}

/// Set the priority of an interrupt; zero is the highest.
pub fn set_priority(platform: Platform, irq: u32, priority: u8) -> (op: RegOp)
    requires
        irq < MAX_IRQ,
    ensures
        op == (RegOp::Modify {
            addr: (gicd(platform) + GICD_IPRIORITYR + irq as int / 4 * 4) as u64,
            clear: 0xFFu32 << (irq % 4 * 8),
            set: (priority as u32) << (irq % 4 * 8),
        }),
{
    let shift: u32 = irq % 4 * 8;
    RegOp::Modify {
        addr: distributor(platform) + GICD_IPRIORITYR + (irq / 4) as u64 * 4,
        clear: 0xFFu32 << shift,
        set: (priority as u32) << shift,
    }
}

/// Make an interrupt edge triggered.
pub fn set_edge_triggered(platform: Platform, irq: u32) -> (op: RegOp)
    requires
        irq < MAX_IRQ,
    ensures
        op == (RegOp::Modify {
            addr: (gicd(platform) + GICD_ICFGR + irq as int / 16 * 4) as u64,
            clear: 0,
            set: 2u32 << (irq % 16 * 2),
        }),
{
    let shift: u32 = irq % 16 * 2;
    RegOp::Modify {
        addr: distributor(platform) + GICD_ICFGR + (irq / 16) as u64 * 4,
        clear: 0,
        set: 2u32 << shift,
    }
}

/// The register whose reading acknowledges an interrupt.
pub fn acknowledge(platform: Platform) -> (addr: u64)
    ensures
        addr == gicc(platform) + GICC_IAR,
{
    interface(platform) + GICC_IAR
}

/// The interrupt in what the acknowledge register holds.
pub fn irq_id_from_iar(iar: u32) -> (irq: u32)
    ensures
        irq == iar % 1024,
{
    assert(iar & 0x3FF == iar % 1024) by (bit_vector);
    iar & 0x3FF
}

/// Tell the controller that an interrupt was handled. `iar` is what the
/// acknowledge register held.
pub fn end_of_interrupt(platform: Platform, iar: u32) -> (op: RegOp)
    ensures
        op == (RegOp::Write { addr: (gicc(platform) + GICC_EOIR) as u64, value: iar }),
{
    RegOp::Write { addr: interface(platform) + GICC_EOIR, value: iar }
}

/// Interrupt another processor.
pub fn send_sgi(platform: Platform, cpu: u32, sgi: u32) -> (op: RegOp)
    requires
        cpu < 8,
        sgi < 16,
    ensures
        op == (RegOp::Write {
            addr: (gicd(platform) + GICD_SGIR) as u64,
            value: (1u32 << (16 + cpu) as u32) | sgi,
        }),
{
    RegOp::Write { addr: distributor(platform) + GICD_SGIR, value: (1u32 << (16 + cpu)) | sgi }
}

/// Law: setting the priority of an interrupt sets its own byte and leaves those
/// of the three interrupts that share its register alone.
pub proof fn law_priority_is_confined(irq: u32, priority: u8, before: u32)
    requires
        irq < MAX_IRQ,
    ensures
        ({
            let clear = 0xFFu32 << (irq % 4 * 8);
            let set = (priority as u32) << (irq % 4 * 8);
            let after = (before & !clear) | set;
            forall|lane: u32|
                lane < 4 ==> #[trigger] byte_lane(after, lane) == if lane == irq % 4 {
                    priority as u32
                } else {
                    byte_lane(before, lane)
                }
        }),
{
    let own = irq % 4;
    let p = priority as u32;
    assert forall|lane: u32| lane < 4 implies #[trigger] byte_lane(
        (before & !(0xFFu32 << (irq % 4 * 8))) | (p << (irq % 4 * 8)),
        lane,
    ) == if lane == irq % 4 {
        p
    } else {
        byte_lane(before, lane)
    } by {
        let shift = (own * 8) as u32;
        let at = (lane * 8) as u32;
        assert((((before & !(0xFFu32 << shift)) | (p << shift)) >> at) & 0xFF == if at == shift {
            p
        } else {
            (before >> at) & 0xFF
        }) by (bit_vector)
            requires
                shift == 0 || shift == 8 || shift == 16 || shift == 24,
                at == 0 || at == 8 || at == 16 || at == 24,
                p < 256,
        ;
    }
}

/// One byte of a register.
pub open spec fn byte_lane(value: u32, lane: u32) -> u32 {
    (value >> ((lane * 8) as u32)) & 0xFF
}

/// Law: where the controller is, and how many interrupts it has: 32 for each step of the
/// type field, from 32 to 1024.
pub proof fn law_controller_places(typer: u32)
    ensures
        gicd(Platform::Virt) == 0x0800_0000,
        gicc(Platform::Virt) == 0x0801_0000,
        gicd(Platform::Rpi5) == 0xFFFF_8010_7FFF_9000,
        gicc(Platform::Rpi5) == 0xFFFF_8010_7FFF_A000,
        irq_lines(typer) == 32 * (typer as int % 32) + 32,
        32 <= irq_lines(typer) <= 1024,
{
}

/// Law: the set-up turns the distributor off first and on last, before the interface. In
/// between it writes every enable, pending, priority, target and trigger register, on the
/// Pi 5 also the groups.
pub proof fn law_controller_set_up(platform: Platform, typer: u32, line: int)
    requires
        0 <= line < irq_lines(typer),
    ensures
        ({
            let ops = init_ops(platform, typer);
            let n = ops.len() as int;
            let d = gicd(platform);
            let c = gicc(platform);
            &&& ops[0] == (RegOp::Write { addr: d, value: 0 })
            &&& ops[n - 3] == (RegOp::Write { addr: d, value: 3 })
            &&& ops[n - 2] == (RegOp::Write { addr: (c + 4) as u64, value: 0xFF })
            &&& ops[n - 1] == (RegOp::Write { addr: c, value: 3 })
            &&& ops.contains(
                RegOp::Write { addr: (d + 0x180 + line / 32 * 4) as u64, value: 0xFFFF_FFFF },
            )
            &&& ops.contains(
                RegOp::Write { addr: (d + 0x280 + line / 32 * 4) as u64, value: 0xFFFF_FFFF },
            )
            &&& ops.contains(
                RegOp::Write { addr: (d + 0x400 + line / 4 * 4) as u64, value: 0xFFFF_FFFF },
            )
            &&& line >= 32 ==> ops.contains(
                RegOp::Write { addr: (d + 0x800 + line / 4 * 4) as u64, value: 0x0101_0101 },
            )
            &&& ops.contains(RegOp::Write { addr: (d + 0xC00 + line / 16 * 4) as u64, value: 0 })
            &&& platform is Rpi5 ==> ops.contains(
                RegOp::Write { addr: (d + 0x80 + line / 32 * 4) as u64, value: 0xFFFF_FFFF },
            )
        }),
{
    let ops = init_ops(platform, typer);
    let d = gicd(platform) as int;
    let lines = irq_lines(typer);
    let g = if platform is Rpi5 {
        lines / 32
    } else {
        0
    };
    let at_pending = 1 + lines / 32 + g;
    let at_priority = at_pending + lines / 32;
    let at_target = at_priority + lines / 4;
    let at_trigger = at_target + lines / 4 - 8;
    assert(ops[1 + line / 32] == (RegOp::Write {
        addr: (d + 0x180 + line / 32 * 4) as u64,
        value: 0xFFFF_FFFF,
    }));
    if platform is Rpi5 {
        assert(ops[1 + lines / 32 + line / 32] == (RegOp::Write {
            addr: (d + 0x80 + line / 32 * 4) as u64,
            value: 0xFFFF_FFFF,
        }));
    }
    assert(ops[at_pending + line / 32] == (RegOp::Write {
        addr: (d + 0x280 + line / 32 * 4) as u64,
        value: 0xFFFF_FFFF,
    }));
    assert(ops[at_priority + line / 4] == (RegOp::Write {
        addr: (d + 0x400 + line / 4 * 4) as u64,
        value: 0xFFFF_FFFF,
    }));
    if line >= 32 {
        assert(ops[at_target + line / 4 - 8] == (RegOp::Write {
            addr: (d + 0x800 + line / 4 * 4) as u64,
            value: 0x0101_0101,
        }));
    }
    assert(ops[at_trigger + line / 16] == (RegOp::Write {
        addr: (d + 0xC00 + line / 16 * 4) as u64,
        value: 0,
    }));
}

/// Law: an interrupt is enabled and disabled by its own bit, one of 32, in registers of its
/// own; its priority is one byte of four, and its trigger one bit of two.
pub proof fn law_one_interrupt(
    platform: Platform,
    irq: u32,
    priority: u8,
    on: RegOp,
    off: RegOp,
    set: RegOp,
    edge: RegOp,
)
    requires
        call_ensures(enable_irq, (platform, irq), on),
        call_ensures(disable_irq, (platform, irq), off),
        call_ensures(set_priority, (platform, irq, priority), set),
        call_ensures(set_edge_triggered, (platform, irq), edge),
    ensures
        on == (RegOp::Write {
            addr: (gicd(platform) + 0x100 + 4 * (irq as int / 32)) as u64,
            value: 1u32 << (irq % 32),
        }),
        off == (RegOp::Write {
            addr: (gicd(platform) + 0x180 + 4 * (irq as int / 32)) as u64,
            value: 1u32 << (irq % 32),
        }),
        set.spec_addr() == (gicd(platform) + 0x400 + 4 * (irq as int / 4)) as u64,
        set == (RegOp::Modify {
            addr: set.spec_addr(),
            clear: 0xFFu32 << (irq % 4 * 8),
            set: (priority as u32) << (irq % 4 * 8),
        }),
        edge == (RegOp::Modify {
            addr: (gicd(platform) + 0xC00 + 4 * (irq as int / 16)) as u64,
            clear: 0,
            set: 2u32 << (irq % 16 * 2),
        }),
{
}

/// Law: an interrupt is acknowledged by reading the interface's register at 0x0C and ended
/// by writing the same value to the one at 0x10.
pub proof fn law_acknowledge_and_end(platform: Platform, iar: u32, irq: u32, from: u64, end: RegOp)
    requires
        call_ensures(acknowledge, (platform,), from),
        call_ensures(irq_id_from_iar, (iar,), irq),
        call_ensures(end_of_interrupt, (platform, iar), end),
    ensures
        from == gicc(platform) + 0x0C,
        irq as int == iar as int % 1024,
        end == (RegOp::Write { addr: (gicc(platform) + 0x10) as u64, value: iar }),
{
}

/// Law: another processor is interrupted through its own target bit, from 16 up, with the
/// number in the low bits.
pub proof fn law_interrupt_of_a_processor(platform: Platform, cpu: u32, sgi: u32, op: RegOp)
    requires
        cpu < 8,
        sgi < 16,
        call_ensures(send_sgi, (platform, cpu, sgi), op),
    ensures
        op.spec_addr() == (gicd(platform) + 0xF00) as u64,
        op.applied(0) & 0xF == sgi,
        op.applied(0) & 0xFFFF_0000 == 0x1_0000u32 << cpu,
{
    let target = (16 + cpu) as u32;
    let value = (1u32 << target) | sgi;
    assert(value & 0xF == sgi && value & 0xFFFF_0000 == 0x1_0000u32 << cpu) by (bit_vector)
        requires
            value == (1u32 << target) | sgi,
            target == 16 + cpu,
            cpu < 8,
            sgi < 16,
    ;
}

} // verus!
