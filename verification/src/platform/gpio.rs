//! RP1 GPIO.
//!
//! Twenty-eight pins, each with a status and a control register, and a pad
//! register for its electrical side.

use vstd::prelude::*;

use crate::platform::memory_map::{RP1_GPIO_BASE, RP1_PADS_BANK0_BASE, RP1_PCIE_APBS_BASE};
use crate::platform::mmio::{held_after, RegOp};
use crate::platform::rp1_irq::{
    acknowledge_gpio_vector, initialize_gpio_route, RouteInit, MSIX_CFG_0, MSIX_CFG_IACK,
    RP1_PCIE_REG_SET,
};

verus! {

/// Pins of the header.
pub const NUM_PINS: u8 = 28;

/// One bit for every pin.
pub const ALL_PINS: u32 = 0x0FFF_FFFF;

/// Offsets of a pin's registers, and of the bank's.
pub const GPIO_STATUS: u64 = 0x00;

pub const GPIO_CTRL: u64 = 0x04;

pub const GPIO_INTR: u64 = 0x100;

pub const GPIO_PCIE_INTE: u64 = 0x11C;

pub const GPIO_PCIE_INTS: u64 = 0x124;

pub const GPIO_REG_STRIDE: u64 = 0x08;

pub const PADS_GPIO0_OFFSET: u64 = 0x04;

pub const PADS_GPIO_STRIDE: u64 = 0x04;

/// Aliases that set or clear the written bits.
pub const ATOMIC_SET_OFFSET: u64 = 0x2000;

pub const ATOMIC_CLEAR_OFFSET: u64 = 0x3000;

/// Control: function, output override, output-enable override.
pub const FUNCSEL_MASK: u32 = 0x1F;

pub const OUTOVER_MASK: u32 = 0x3000;

pub const OUTOVER_LOW: u32 = 0x2000;

pub const OUTOVER_HIGH: u32 = 0x3000;

pub const OEOVER_MASK: u32 = 0xC000;

pub const OEOVER_DISABLE: u32 = 0x8000;

pub const OEOVER_ENABLE: u32 = 0xC000;

/// Control: interrupt enables and reset.
pub const IRQEN_FALLING: u32 = 0x0010_0000;

pub const IRQEN_RISING: u32 = 0x0020_0000;

pub const IRQEN_ALL: u32 = 0x00F0_0000;

pub const IRQRESET: u32 = 0x1000_0000;

/// Pad: hysteresis, pulls, input enable, output disable.
pub const PAD_SCHMITT: u32 = 0x02;

pub const PAD_PULL_MASK: u32 = 0x0C;

pub const PAD_IN_ENABLE: u32 = 0x40;

pub const PAD_OUT_DISABLE: u32 = 0x80;

/// Status: level and events.
pub const STATUS_LEVEL: u32 = 0x0002_0000;

pub const EVENT_FALLING: u32 = 0x0010_0000;

pub const EVENT_RISING: u32 = 0x0020_0000;

pub const EVENT_MASK: u32 = 0x00F0_0000;

/// What a pin is connected to.
#[derive(Debug, Clone, Copy, PartialEq, Eq, Structural)]
pub enum GpioFunction {
    Alt0,
    Alt1,
    Alt2,
    Alt3,
    Alt4,
    /// General purpose. The output-enable state makes it an input or output.
    Gpio,
    Alt6,
    Alt7,
    Alt8,
    /// Nothing.
    Null,
}

/// The number of a function.
pub open spec fn function_code(func: GpioFunction) -> u32 {
    match func {
        GpioFunction::Alt0 => 0,
        GpioFunction::Alt1 => 1,
        GpioFunction::Alt2 => 2,
        GpioFunction::Alt3 => 3,
        GpioFunction::Alt4 => 4,
        GpioFunction::Gpio => 5,
        GpioFunction::Alt6 => 6,
        GpioFunction::Alt7 => 7,
        GpioFunction::Alt8 => 8,
        GpioFunction::Null => 31,
    }
}

impl GpioFunction {
    /// The number of this function.
    pub fn code(self) -> (code: u32)
        ensures
            code == function_code(self),
    {
        match self {
            GpioFunction::Alt0 => 0,
            GpioFunction::Alt1 => 1,
            GpioFunction::Alt2 => 2,
            GpioFunction::Alt3 => 3,
            GpioFunction::Alt4 => 4,
            GpioFunction::Gpio => 5,
            GpioFunction::Alt6 => 6,
            GpioFunction::Alt7 => 7,
            GpioFunction::Alt8 => 8,
            GpioFunction::Null => 31,
        }
    }
}

/// Pull resistor of a pad.
#[derive(Debug, Clone, Copy, PartialEq, Eq, Structural)]
pub enum GpioPull {
    /// No resistor.
    Off,
    Down,
    Up,
}

/// The pull field of a pad register.
pub open spec fn pull_field(pull: GpioPull) -> u32 {
    match pull {
        GpioPull::Off => 0,
        GpioPull::Down => 4,
        GpioPull::Up => 8,
    }
}

/// What the registers of a pin's interrupt path read.
#[derive(Debug, Clone, Copy, PartialEq, Eq, Structural)]
pub struct Rp1GpioInterruptState {
    pub status: u32,
    pub control: u32,
    pub pad: u32,
    pub raw_interrupts: u32,
    pub pcie_enable: u32,
    pub pcie_status: u32,
}

/// The GPIO bank.
#[derive(Debug, Clone, Copy, PartialEq, Eq, Structural)]
pub struct Rp1Gpio {
    pub base: u64,
}

impl Rp1Gpio {
    pub open spec fn wf(self) -> bool {
        self.base + 0x4000 <= u64::MAX
    }

    pub open spec fn status_addr(self, pin: u8) -> u64 {
        (self.base + pin * GPIO_REG_STRIDE + GPIO_STATUS) as u64
    }

    pub open spec fn ctrl_addr(self, pin: u8) -> u64 {
        (self.base + pin * GPIO_REG_STRIDE + GPIO_CTRL) as u64
    }

    pub open spec fn pad_addr(self, pin: u8) -> u64 {
        (RP1_PADS_BANK0_BASE + PADS_GPIO0_OFFSET + pin * PADS_GPIO_STRIDE) as u64
    }

    /// Change the control register of a pin.
    pub open spec fn on_ctrl(self, pin: u8, clear: u32, set: u32) -> RegOp {
        RegOp::Modify { addr: self.ctrl_addr(pin), clear, set }
    }

    /// Change the pad register of a pin.
    pub open spec fn on_pad(self, pin: u8, clear: u32, set: u32) -> RegOp {
        RegOp::Modify { addr: self.pad_addr(pin), clear, set }
    }

    /// Write a pin's bit into an alias of the interrupt enable register.
    pub open spec fn pcie_enable(self, alias: u64, pin: u8) -> RegOp {
        RegOp::Write {
            addr: (self.base + alias + GPIO_PCIE_INTE) as u64,
            value: 1u32 << pin,
        }
    }

    /// Reset a pin's interrupt.
    pub open spec fn irq_reset(self, pin: u8) -> RegOp {
        RegOp::Write {
            addr: (self.base + ATOMIC_SET_OFFSET + pin * GPIO_REG_STRIDE + GPIO_CTRL) as u64,
            value: IRQRESET,
        }
    }

    pub fn new() -> (gpio: Self)
        ensures
            gpio.base == RP1_GPIO_BASE,
            gpio.wf(),
    {
        Rp1Gpio { base: RP1_GPIO_BASE }
    }

    /// Address of a pin's status register.
    pub fn reg_status(&self, pin: u8) -> (addr: u64)
        requires
            self.wf(),
            pin < NUM_PINS,
        ensures
            addr == self.status_addr(pin),
    {
        self.base + (pin as u64 * GPIO_REG_STRIDE + GPIO_STATUS)
    }

    /// Address of a pin's control register.
    pub fn reg_ctrl(&self, pin: u8) -> (addr: u64)
        requires
            self.wf(),
            pin < NUM_PINS,
        ensures
            addr == self.ctrl_addr(pin),
    {
        self.base + (pin as u64 * GPIO_REG_STRIDE + GPIO_CTRL)
    }

    /// Address of a pin's pad register.
    pub fn reg_pad(&self, pin: u8) -> (addr: u64)
        requires
            pin < NUM_PINS,
        ensures
            addr == self.pad_addr(pin),
    {
        RP1_PADS_BANK0_BASE + (PADS_GPIO0_OFFSET + pin as u64 * PADS_GPIO_STRIDE)
    }

    /// Connect a pin to a function.
    pub fn set_function(&self, pin: u8, func: GpioFunction) -> (op: RegOp)
        requires
            self.wf(),
            pin < NUM_PINS,
        ensures
            op == self.on_ctrl(pin, FUNCSEL_MASK, function_code(func)),
    {
        RegOp::Modify { addr: self.reg_ctrl(pin), clear: FUNCSEL_MASK, set: func.code() }
    }

    /// The function field of a control register.
    pub fn get_function(ctrl: u32) -> (code: u32)
        ensures
            code == ctrl & FUNCSEL_MASK,
    {
        ctrl & FUNCSEL_MASK
    }

    /// Drive a pin high.
    pub fn set_high(&self, pin: u8) -> (op: RegOp)
        requires
            self.wf(),
            pin < NUM_PINS,
        ensures
            op == self.on_ctrl(pin, OUTOVER_MASK, OUTOVER_HIGH),
    {
        RegOp::Modify { addr: self.reg_ctrl(pin), clear: OUTOVER_MASK, set: OUTOVER_HIGH }
    }

    /// Drive a pin low.
    pub fn set_low(&self, pin: u8) -> (op: RegOp)
        requires
            self.wf(),
            pin < NUM_PINS,
        ensures
            op == self.on_ctrl(pin, OUTOVER_MASK, OUTOVER_LOW),
    {
        RegOp::Modify { addr: self.reg_ctrl(pin), clear: OUTOVER_MASK, set: OUTOVER_LOW }
    }

    /// Drive a pin to the other level than its status register reads.
    pub fn toggle(&self, pin: u8, status: u32) -> (op: RegOp)
        requires
            self.wf(),
            pin < NUM_PINS,
        ensures
            op == self.on_ctrl(
                pin,
                OUTOVER_MASK,
                if status & STATUS_LEVEL != 0 {
                    OUTOVER_LOW
                } else {
                    OUTOVER_HIGH
                },
            ),
    {
        if Self::read(status) {
            self.set_low(pin)
        } else {
            self.set_high(pin)
        }
    }

    /// The level in a status register.
    pub fn read(status: u32) -> (high: bool)
        ensures
            high == (status & STATUS_LEVEL != 0),
    {
        status & STATUS_LEVEL != 0
    }

    /// The accesses that make a pin an output.
    pub open spec fn output_ops(self, pin: u8, initial_high: bool) -> Seq<RegOp> {
        seq![
            self.on_ctrl(pin, FUNCSEL_MASK, function_code(GpioFunction::Gpio)),
            self.on_ctrl(
                pin,
                OUTOVER_MASK,
                if initial_high {
                    OUTOVER_HIGH
                } else {
                    OUTOVER_LOW
                },
            ),
            self.on_ctrl(pin, OEOVER_MASK, OEOVER_ENABLE),
            self.on_pad(pin, PAD_OUT_DISABLE, PAD_IN_ENABLE),
        ]
    }

    /// Make a pin an output at a level: function and level first, then the
    /// driver. The input buffer stays on, so that the level can be read back.
    pub fn configure_output(&self, pin: u8, initial_high: bool) -> (ops: Vec<RegOp>)
        requires
            self.wf(),
            pin < NUM_PINS,
        ensures
            ops@ == self.output_ops(pin, initial_high),
    {
        let mut ops: Vec<RegOp> = Vec::new();
        ops.push(self.set_function(pin, GpioFunction::Gpio));
        if initial_high {
            ops.push(self.set_high(pin));
        } else {
            ops.push(self.set_low(pin));
        }
        ops.push(
            RegOp::Modify { addr: self.reg_ctrl(pin), clear: OEOVER_MASK, set: OEOVER_ENABLE },
        );
        ops.push(
            RegOp::Modify { addr: self.reg_pad(pin), clear: PAD_OUT_DISABLE, set: PAD_IN_ENABLE },
        );
        ops
    }

    /// The accesses that hand a pin to a peripheral.
    pub open spec fn peripheral_ops(self, pin: u8, func: GpioFunction) -> Seq<RegOp> {
        seq![
            self.on_ctrl(pin, FUNCSEL_MASK, function_code(func)),
            self.on_ctrl(pin, OEOVER_MASK | OUTOVER_MASK, OEOVER_ENABLE),
            self.on_pad(pin, PAD_OUT_DISABLE, PAD_IN_ENABLE),
        ]
    }

    /// Hand a pin to a peripheral as an output. A forced level is released; the
    /// caller has made the peripheral's output safe.
    pub fn configure_peripheral_output(&self, pin: u8, func: GpioFunction) -> (ops: Vec<RegOp>)
        requires
            self.wf(),
            pin < NUM_PINS,
        ensures
            ops@ == self.peripheral_ops(pin, func),
    {
        let mut ops: Vec<RegOp> = Vec::new();
        ops.push(self.set_function(pin, func));
        ops.push(
            RegOp::Modify {
                addr: self.reg_ctrl(pin),
                clear: OEOVER_MASK | OUTOVER_MASK,
                set: OEOVER_ENABLE,
            },
        );
        ops.push(
            RegOp::Modify { addr: self.reg_pad(pin), clear: PAD_OUT_DISABLE, set: PAD_IN_ENABLE },
        );
        ops
    }

    /// Force the level of a pin whatever its function, or stop forcing it.
    pub fn force_output_override(&self, pin: u8, level: Option<bool>) -> (op: RegOp)
        requires
            self.wf(),
            pin < NUM_PINS,
        ensures
            op == self.on_ctrl(
                pin,
                OUTOVER_MASK,
                match level {
                    Some(true) => OUTOVER_HIGH,
                    Some(false) => OUTOVER_LOW,
                    None => 0,
                },
            ),
    {
        let forced: u32 = match level {
            Some(true) => OUTOVER_HIGH,
            Some(false) => OUTOVER_LOW,
            None => 0,
        };
        RegOp::Modify { addr: self.reg_ctrl(pin), clear: OUTOVER_MASK, set: forced }
    }

    /// Address of a pin's pad register, for diagnostics.
    pub fn pad_readback(&self, pin: u8) -> (addr: u64)
        requires
            pin < NUM_PINS,
        ensures
            addr == self.pad_addr(pin),
    {
        self.reg_pad(pin)
    }

    /// Address of a pin's control register, for diagnostics.
    pub fn ctrl_readback(&self, pin: u8) -> (addr: u64)
        requires
            self.wf(),
            pin < NUM_PINS,
        ensures
            addr == self.ctrl_addr(pin),
    {
        self.reg_ctrl(pin)
    }

    /// The accesses that make a pin an input.
    pub open spec fn input_ops(self, pin: u8) -> Seq<RegOp> {
        seq![
            self.on_ctrl(pin, FUNCSEL_MASK, function_code(GpioFunction::Gpio)),
            self.on_ctrl(pin, OEOVER_MASK, OEOVER_DISABLE),
            self.on_pad(pin, 0, PAD_IN_ENABLE | PAD_SCHMITT),
        ]
    }

    /// Make a pin an input, with its buffer on and hysteresis.
    pub fn configure_input(&self, pin: u8) -> (ops: Vec<RegOp>)
        requires
            self.wf(),
            pin < NUM_PINS,
        ensures
            ops@ == self.input_ops(pin),
    {
        let mut ops: Vec<RegOp> = Vec::new();
        ops.push(self.set_function(pin, GpioFunction::Gpio));
        ops.push(
            RegOp::Modify { addr: self.reg_ctrl(pin), clear: OEOVER_MASK, set: OEOVER_DISABLE },
        );
        ops.push(
            RegOp::Modify { addr: self.reg_pad(pin), clear: 0, set: PAD_IN_ENABLE | PAD_SCHMITT },
        );
        ops
    }

    /// Choose the pull resistor of a pin.
    pub fn set_pull(&self, pin: u8, pull: GpioPull) -> (op: RegOp)
        requires
            pin < NUM_PINS,
        ensures
            op == self.on_pad(pin, PAD_PULL_MASK, pull_field(pull)),
    {
        let field: u32 = match pull {
            GpioPull::Off => 0,
            GpioPull::Down => 4,
            GpioPull::Up => 8,
        };
        RegOp::Modify { addr: self.reg_pad(pin), clear: PAD_PULL_MASK, set: field }
    }

    /// Connect pins 14 and 15 to the UART.
    pub fn setup_uart(&self) -> (ops: Vec<RegOp>)
        requires
            self.wf(),
        ensures
            ops@ == seq![
                self.on_ctrl(14, FUNCSEL_MASK, function_code(GpioFunction::Alt4)),
                self.on_ctrl(15, FUNCSEL_MASK, function_code(GpioFunction::Alt4)),
            ],
    {
        let mut ops: Vec<RegOp> = Vec::new();
        ops.push(self.set_function(14, GpioFunction::Alt4));
        ops.push(self.set_function(15, GpioFunction::Alt4));
        ops
    }

    /// Set up the route of the bank's interrupt to the processor.
    pub fn init_pcie_interrupt_route(&self) -> (init: RouteInit)
        ensures
            init.wf(),
            init == RouteInit::start(),
    {
        initialize_gpio_route()
    }

    /// Let the bank interrupt again, once all pins that were pending are cleared.
    pub fn acknowledge_pcie_interrupt(&self) -> (op: RegOp)
        ensures
            op == (RegOp::Write {
                addr: (RP1_PCIE_APBS_BASE + RP1_PCIE_REG_SET + MSIX_CFG_0) as u64,
                value: MSIX_CFG_IACK,
            }),
    {
        acknowledge_gpio_vector()
    }

    /// The pins of an interrupt register.
    pub fn pending_pcie_interrupts(status: u32) -> (pins: u32)
        ensures
            pins == status & ALL_PINS,
    {
        status & ALL_PINS
    }

    /// The state of a pin's interrupt path, from what its registers read.
    pub fn interrupt_state(
        status: u32,
        control: u32,
        pad: u32,
        raw: u32,
        enable: u32,
        pending: u32,
    ) -> (state: Rp1GpioInterruptState)
        ensures
            state == (Rp1GpioInterruptState {
                status,
                control,
                pad,
                raw_interrupts: raw & ALL_PINS,
                pcie_enable: enable & ALL_PINS,
                pcie_status: pending & ALL_PINS,
            }),
    {
        Rp1GpioInterruptState {
            status,
            control,
            pad,
            raw_interrupts: raw & ALL_PINS,
            pcie_enable: enable & ALL_PINS,
            pcie_status: pending & ALL_PINS,
        }
    }

    /// Every register on the interrupt path of a pin, read back.
    pub open spec fn readback_ops(self, pin: u8) -> Seq<RegOp> {
        seq![
            RegOp::Readback { addr: self.status_addr(pin) },
            RegOp::Readback { addr: self.ctrl_addr(pin) },
            RegOp::Readback { addr: self.pad_addr(pin) },
            RegOp::Readback { addr: (self.base + GPIO_INTR) as u64 },
            RegOp::Readback { addr: (self.base + GPIO_PCIE_INTE) as u64 },
            RegOp::Readback { addr: (self.base + GPIO_PCIE_INTS) as u64 },
        ]
    }

    /// The accesses that enable the interrupt of a pin.
    pub open spec fn irq_on_ops(self, pin: u8, rising: bool, falling: bool) -> Seq<RegOp> {
        seq![
            self.pcie_enable(ATOMIC_CLEAR_OFFSET, pin),
            self.on_ctrl(pin, IRQEN_ALL, edge_enables(rising, falling)),
            self.irq_reset(pin),
            self.pcie_enable(ATOMIC_SET_OFFSET, pin),
        ] + self.readback_ops(pin)
    }

    /// Read back every register on the interrupt path of a pin.
    fn read_back(&self, ops: &mut Vec<RegOp>, pin: u8)
        requires
            self.wf(),
            pin < NUM_PINS,
        ensures
            final(ops)@ == old(ops)@ + self.readback_ops(pin),
    {
        ops.push(RegOp::Readback { addr: self.reg_status(pin) });
        ops.push(RegOp::Readback { addr: self.reg_ctrl(pin) });
        ops.push(RegOp::Readback { addr: self.reg_pad(pin) });
        ops.push(RegOp::Readback { addr: self.base + GPIO_INTR });
        ops.push(RegOp::Readback { addr: self.base + GPIO_PCIE_INTE });
        ops.push(RegOp::Readback { addr: self.base + GPIO_PCIE_INTS });
        assert(ops@ =~= old(ops)@ + self.readback_ops(pin));
    }

    /// Enable a pin's interrupt on edges: off first, then the edges and a reset,
    /// then on. The registers are read back, so that the interrupt is armed once
    /// this was performed.
    pub fn enable_interrupt(&self, pin: u8, rising: bool, falling: bool) -> (ops: Vec<RegOp>)
        requires
            self.wf(),
            pin < NUM_PINS,
        ensures
            ops@ == self.irq_on_ops(pin, rising, falling),
    {
        let bit: u32 = 1u32 << pin;
        let mut ops: Vec<RegOp> = Vec::new();
        ops.push(
            RegOp::Write { addr: self.base + ATOMIC_CLEAR_OFFSET + GPIO_PCIE_INTE, value: bit },
        );
        let edges: u32 = match (rising, falling) {
            (true, true) => IRQEN_RISING + IRQEN_FALLING,
            (true, false) => IRQEN_RISING,
            (false, true) => IRQEN_FALLING,
            (false, false) => 0,
        };
        ops.push(RegOp::Modify { addr: self.reg_ctrl(pin), clear: IRQEN_ALL, set: edges });
        ops.push(self.clear_interrupt(pin));
        ops.push(
            RegOp::Write { addr: self.base + ATOMIC_SET_OFFSET + GPIO_PCIE_INTE, value: bit },
        );
        let ghost armed = ops@;
        self.read_back(&mut ops, pin);
        assert(ops@ =~= armed + self.readback_ops(pin));
        ops
    }

    /// The accesses that disable the interrupt of a pin.
    pub open spec fn irq_off_ops(self, pin: u8) -> Seq<RegOp> {
        seq![
            self.pcie_enable(ATOMIC_CLEAR_OFFSET, pin),
            self.on_ctrl(pin, IRQEN_ALL, 0),
            self.irq_reset(pin),
        ]
    }

    /// Disable a pin's interrupt and drop what is pending.
    pub fn disable_interrupt(&self, pin: u8) -> (ops: Vec<RegOp>)
        requires
            self.wf(),
            pin < NUM_PINS,
        ensures
            ops@ == self.irq_off_ops(pin),
    {
        let mut ops: Vec<RegOp> = Vec::new();
        ops.push(
            RegOp::Write {
                addr: self.base + ATOMIC_CLEAR_OFFSET + GPIO_PCIE_INTE,
                value: 1u32 << pin,
            },
        );
        ops.push(RegOp::Modify { addr: self.reg_ctrl(pin), clear: IRQEN_ALL, set: 0 });
        ops.push(self.clear_interrupt(pin));
        ops
    }

    /// Reset a pin's interrupt.
    pub fn clear_interrupt(&self, pin: u8) -> (op: RegOp)
        requires
            self.wf(),
            pin < NUM_PINS,
        ensures
            op == self.irq_reset(pin),
    {
        RegOp::Write {
            addr: self.base + ATOMIC_SET_OFFSET + (pin as u64 * GPIO_REG_STRIDE + GPIO_CTRL),
            value: IRQRESET,
        }
    }

    /// The events of a status register.
    pub fn get_pending_events(status: u32) -> (events: u32)
        ensures
            events == status & EVENT_MASK,
    {
        status & EVENT_MASK
    }

    /// A rising edge is pending in a status register.
    pub fn has_rising_event(status: u32) -> (rising: bool)
        ensures
            rising == ((status & EVENT_MASK) & EVENT_RISING != 0),
    {
        Self::get_pending_events(status) & EVENT_RISING != 0
    }

    /// A falling edge is pending in a status register.
    pub fn has_falling_event(status: u32) -> (falling: bool)
        ensures
            falling == ((status & EVENT_MASK) & EVENT_FALLING != 0),
    {
        Self::get_pending_events(status) & EVENT_FALLING != 0
    }
}

/// Enable bits of edges.
pub open spec fn edge_enables(rising: bool, falling: bool) -> u32 {
    match (rising, falling) {
        (true, true) => (IRQEN_RISING + IRQEN_FALLING) as u32,
        (true, false) => IRQEN_RISING,
        (false, true) => IRQEN_FALLING,
        (false, false) => 0,
    }
}

/// An edge on a pin.
#[derive(Debug, Clone, Copy, PartialEq, Eq, Structural)]
pub enum Edge {
    Rising,
    Falling,
    /// Both since the last look.
    Both,
}

/// The edge that events stand for; `None` for levels alone.
pub open spec fn edge_of(events: u32) -> Option<Edge> {
    let rising = events & EVENT_RISING != 0;
    let falling = events & EVENT_FALLING != 0;
    if rising && falling {
        Some(Edge::Both)
    } else if rising {
        Some(Edge::Rising)
    } else if falling {
        Some(Edge::Falling)
    } else {
        None
    }
}

impl Edge {
    /// The flags that programs see: rising one, falling two.
    pub fn flags(self) -> (flags: u32)
        ensures
            flags == match self {
                Edge::Rising => 1u32,
                Edge::Falling => 2,
                Edge::Both => 3,
            },
    {
        match self {
            Edge::Rising => 1,
            Edge::Falling => 2,
            Edge::Both => 3,
        }
    }
}

/// What to do about one pin of an interrupt.
#[derive(Debug, Clone, Copy, PartialEq, Eq, Structural)]
pub enum PinAction {
    /// The pin did not ask for attention.
    Skip,
    /// Reset its interrupt and go on.
    ClearOnly,
    /// Reset its interrupt and report the stop button.
    EstopButton { pressed: bool },
    /// Reset its interrupt and run the programs attached to the edge.
    Dispatch { edge: Edge, high: bool },
}

/// What to do about a pin whose bit is `pending` in the interrupt register,
/// from its status register. The stop button, where `button` says so, is held
/// high; a falling edge or, when in doubt, a low level is a press.
pub open spec fn pin_plan(pending: bool, status: u32, button: bool) -> PinAction {
    let events = status & EVENT_MASK;
    let high = status & STATUS_LEVEL != 0;
    if !pending || events == 0 {
        PinAction::Skip
    } else {
        match edge_of(events) {
            None => PinAction::ClearOnly,
            Some(edge) => if button {
                PinAction::EstopButton {
                    pressed: match edge {
                        Edge::Falling => true,
                        Edge::Rising => false,
                        Edge::Both => !high,
                    },
                }
            } else {
                PinAction::Dispatch { edge, high }
            },
        }
    }
}

/// A pin asks for attention in the interrupt register.
pub fn is_pending(pending_pins: u32, pin: u8) -> (pending: bool)
    requires
        pin < NUM_PINS,
    ensures
        pending == (pending_pins & (1u32 << pin) != 0),
{
    pending_pins & (1u32 << pin) != 0
}

/// What to do about one pin of an interrupt.
pub fn plan_pin(pending_pins: u32, pin: u8, status: u32, button: bool) -> (action: PinAction)
    requires
        pin < NUM_PINS,
    ensures
        action == pin_plan(pending_pins & (1u32 << pin) != 0, status, button),
{
    if !is_pending(pending_pins, pin) {
        return PinAction::Skip;
    }
    let events: u32 = Rp1Gpio::get_pending_events(status);
    if events == 0 {
        return PinAction::Skip;
    }
    let rising = events & EVENT_RISING != 0;
    let falling = events & EVENT_FALLING != 0;
    let edge = match (rising, falling) {
        (true, true) => Edge::Both,
        (true, false) => Edge::Rising,
        (false, true) => Edge::Falling,
        (false, false) => {
            return PinAction::ClearOnly;
        },
    };
    let high = Rp1Gpio::read(status);
    if button {
        let pressed = match edge {
            Edge::Falling => true,
            Edge::Rising => false,
            Edge::Both => !high,
        };
        PinAction::EstopButton { pressed }
    } else {
        PinAction::Dispatch { edge, high }
    }
}

/// Law: programs run for the edge that happened. A pin that did not ask for
/// attention, or shows no event, is passed over; one with no edge is only reset.
/// Otherwise the rising bit alone is a rising edge, the falling bit alone a falling
/// one, and both together are both, and the level is bit 17.
pub proof fn law_dispatch_tells_the_edge(pending: bool, status: u32)
    ensures
        ({
            let plan = pin_plan(pending, status, false);
            let rising = status & 0x0020_0000 != 0;
            let falling = status & 0x0010_0000 != 0;
            let high = status & 0x0002_0000 != 0;
            &&& !pending || status & 0x00F0_0000 == 0 <==> plan is Skip
            &&& plan is ClearOnly <==> pending && status & 0x00F0_0000 != 0 && !rising && !falling
            &&& pending && rising && !falling ==> plan == (PinAction::Dispatch {
                edge: Edge::Rising,
                high,
            })
            &&& pending && falling && !rising ==> plan == (PinAction::Dispatch {
                edge: Edge::Falling,
                high,
            })
            &&& pending && rising && falling ==> plan == (PinAction::Dispatch {
                edge: Edge::Both,
                high,
            })
        }),
{
    lemma_event_bits(status);
}

/// Law: the stop button is held high. A falling edge is a press and a rising edge a
/// release; after both, the level decides. It is passed over, and only reset, when
/// any other pin is.
pub proof fn law_button_is_pressed_low(pending: bool, status: u32)
    ensures
        ({
            let plan = pin_plan(pending, status, true);
            let rising = status & 0x0020_0000 != 0;
            let falling = status & 0x0010_0000 != 0;
            &&& plan is Skip <==> pin_plan(pending, status, false) is Skip
            &&& plan is ClearOnly <==> pin_plan(pending, status, false) is ClearOnly
            &&& pending && falling && !rising ==> plan == (PinAction::EstopButton { pressed: true })
            &&& pending && rising && !falling ==> plan == (PinAction::EstopButton {
                pressed: false,
            })
            &&& pending && rising && falling ==> plan == (PinAction::EstopButton {
                pressed: status & 0x0002_0000 == 0,
            })
        }),
{
    lemma_event_bits(status);
}

/// The edges are among the events.
proof fn lemma_event_bits(status: u32)
    ensures
        (status & 0x00F0_0000) & 0x0020_0000 == status & 0x0020_0000,
        (status & 0x00F0_0000) & 0x0010_0000 == status & 0x0010_0000,
        status & 0x0020_0000 != 0 || status & 0x0010_0000 != 0 ==> status & 0x00F0_0000 != 0,
{
    assert({
        &&& (status & 0x00F0_0000) & 0x0020_0000 == status & 0x0020_0000
        &&& (status & 0x00F0_0000) & 0x0010_0000 == status & 0x0010_0000
        &&& status & 0x0020_0000 != 0 || status & 0x0010_0000 != 0 ==> status & 0x00F0_0000 != 0
    }) by (bit_vector);
}

/// Law: the plan looks at the pin's own bit, and at no other, of the interrupt
/// register.
pub proof fn law_plan_looks_at_own_bit(
    pending_pins: u32,
    pin: u8,
    status: u32,
    button: bool,
    action: PinAction,
)
    requires
        call_ensures(plan_pin, (pending_pins, pin, status, button), action),
    ensures
        pending_pins & (1u32 << pin) == 0 ==> action is Skip,
        pending_pins & (1u32 << pin) != 0 && status & 0x0010_0000 != 0 ==> (if button {
            action is EstopButton
        } else {
            action is Dispatch
        }),
{
    lemma_event_bits(status);
}

/// Law: the flags that programs see are one bit for each edge that happened.
pub proof fn law_edge_flags(edge: Edge, flags: u32)
    requires
        call_ensures(Edge::flags, (edge,), flags),
    ensures
        flags as int % 2 == 1 <==> edge is Rising || edge is Both,
        flags as int / 2 == 1 <==> edge is Falling || edge is Both,
        flags <= 3,
{
}

/// Law: each pin has registers of its own: status and control side by side, eight
/// bytes apart, and a pad register of four bytes behind the first word of the pads.
pub proof fn law_pins_have_own_registers(gpio: Rp1Gpio, pin: u8, other: u8)
    requires
        gpio.wf(),
        pin < 28,
        other < 28,
    ensures
        gpio.status_addr(pin) == gpio.base + 8 * pin,
        gpio.ctrl_addr(pin) == gpio.base + 8 * pin + 4,
        gpio.pad_addr(pin) == RP1_PADS_BANK0_BASE + 4 + 4 * pin,
        gpio.ctrl_addr(pin) == gpio.ctrl_addr(other) ==> pin == other,
        gpio.pad_addr(pin) == gpio.pad_addr(other) ==> pin == other,
{
}

/// Law: a pin that was made an output carries the general function and drives the
/// level that was asked for, before its driver is on. Its input buffer is on. No
/// other bit of its registers changes.
pub proof fn law_output_drives_the_level(
    gpio: Rp1Gpio,
    pin: u8,
    initial_high: bool,
    ctrl: u32,
    pad: u32,
)
    requires
        gpio.wf(),
        pin < 28,
        gpio.ctrl_addr(pin) != gpio.pad_addr(pin),
    ensures
        ({
            let ops = gpio.output_ops(pin, initial_high);
            let level: u32 = if initial_high {
                0x3000
            } else {
                0x2000
            };
            let after = held_after(ops, gpio.ctrl_addr(pin), ctrl);
            let driven = held_after(ops.take(2), gpio.ctrl_addr(pin), ctrl);
            let padded = held_after(ops, gpio.pad_addr(pin), pad);
            &&& after & 0x1F == 5
            &&& after & 0x3000 == level
            &&& after & 0xC000 == 0xC000
            &&& after & 0xFFFF_0FE0 == ctrl & 0xFFFF_0FE0
            &&& driven & 0x3000 == level
            &&& driven & 0xC000 == ctrl & 0xC000
            &&& padded & 0x80 == 0
            &&& padded & 0x40 != 0
            &&& padded & 0xFFFF_FF3F == pad & 0xFFFF_FF3F
        }),
{
    let ops = gpio.output_ops(pin, initial_high);
    let level: u32 = if initial_high {
        0x3000
    } else {
        0x2000
    };
    let first = (ctrl & !0x1Fu32) | 5;
    let second = (first & !0x3000u32) | level;
    let third = (second & !0xC000u32) | 0xC000;
    let last = (pad & !0x80u32) | 0x40;
    lemma_four(ops, gpio.ctrl_addr(pin), ctrl);
    lemma_four(ops, gpio.pad_addr(pin), pad);
    assert(ops.take(2) =~= seq![ops[0], ops[1]]);
    lemma_two(ops.take(2), gpio.ctrl_addr(pin), ctrl);
    assert({
        &&& third & 0x1F == 5
        &&& third & 0x3000 == level
        &&& third & 0xC000 == 0xC000
        &&& third & 0xFFFF_0FE0 == ctrl & 0xFFFF_0FE0
        &&& second & 0x3000 == level
        &&& second & 0xC000 == ctrl & 0xC000
        &&& last & 0x80 == 0
        &&& last & 0x40 != 0
        &&& last & 0xFFFF_FF3F == pad & 0xFFFF_FF3F
    }) by (bit_vector)
        requires
            first == (ctrl & !0x1Fu32) | 5,
            second == (first & !0x3000u32) | level,
            third == (second & !0xC000u32) | 0xC000,
            last == (pad & !0x80u32) | 0x40,
            level == 0x3000 || level == 0x2000,
    ;
}

proof fn lemma_two(ops: Seq<RegOp>, addr: u64, before: u32)
    requires
        ops.len() == 2,
    ensures
        ({
            let a = held_one(ops[0], addr, before);
            held_after(ops, addr, before) == held_one(ops[1], addr, a)
        }),
{
    reveal_with_fuel(held_after, 3);
    assert(ops.drop_last().last() == ops[0]);
}

proof fn lemma_three(ops: Seq<RegOp>, addr: u64, before: u32)
    requires
        ops.len() == 3,
    ensures
        ({
            let a = held_one(ops[0], addr, before);
            let b = held_one(ops[1], addr, a);
            held_after(ops, addr, before) == held_one(ops[2], addr, b)
        }),
{
    lemma_two(ops.drop_last(), addr, before);
}

proof fn lemma_four(ops: Seq<RegOp>, addr: u64, before: u32)
    requires
        ops.len() == 4,
    ensures
        ({
            let a = held_one(ops[0], addr, before);
            let b = held_one(ops[1], addr, a);
            let c = held_one(ops[2], addr, b);
            held_after(ops, addr, before) == held_one(ops[3], addr, c)
        }),
{
    lemma_three(ops.drop_last(), addr, before);
}

/// What one access leaves in a register.
spec fn held_one(op: RegOp, addr: u64, before: u32) -> u32 {
    if op.spec_addr() == addr {
        op.applied(before)
    } else {
        before
    }
}

/// Law: a pin that was handed to a peripheral carries its function, its level is no
/// longer forced and its driver is on. A pin that was made an input carries the
/// general function, its driver is off, and its buffer is on with hysteresis.
pub proof fn law_peripheral_and_input_pins(
    gpio: Rp1Gpio,
    pin: u8,
    func: GpioFunction,
    ctrl: u32,
    pad: u32,
)
    requires
        gpio.wf(),
        pin < 28,
        gpio.ctrl_addr(pin) != gpio.pad_addr(pin),
    ensures
        ({
            let handed = held_after(gpio.peripheral_ops(pin, func), gpio.ctrl_addr(pin), ctrl);
            let pad_out = held_after(gpio.peripheral_ops(pin, func), gpio.pad_addr(pin), pad);
            let read = held_after(gpio.input_ops(pin), gpio.ctrl_addr(pin), ctrl);
            let pad_in = held_after(gpio.input_ops(pin), gpio.pad_addr(pin), pad);
            &&& handed & 0x1F == function_code(func)
            &&& handed & 0xF000 == 0xC000
            &&& handed & 0xFFFF_0FE0 == ctrl & 0xFFFF_0FE0
            &&& pad_out & 0xC0 == 0x40
            &&& pad_out & 0xFFFF_FF3F == pad & 0xFFFF_FF3F
            &&& read & 0x1F == 5
            &&& read & 0xC000 == 0x8000
            &&& read & 0xFFFF_3FE0 == ctrl & 0xFFFF_3FE0
            &&& pad_in & 0x42 == 0x42
            &&& pad_in & 0xFFFF_FFBD == pad & 0xFFFF_FFBD
        }),
{
    let code = function_code(func);
    let peripheral = gpio.peripheral_ops(pin, func);
    let input = gpio.input_ops(pin);
    lemma_three(peripheral, gpio.ctrl_addr(pin), ctrl);
    lemma_three(peripheral, gpio.pad_addr(pin), pad);
    lemma_three(input, gpio.ctrl_addr(pin), ctrl);
    lemma_three(input, gpio.pad_addr(pin), pad);
    let handed = (((ctrl & !0x1Fu32) | code) & !(0xC000u32 | 0x3000)) | 0xC000;
    let pad_out = (pad & !0x80u32) | 0x40;
    let read = (((ctrl & !0x1Fu32) | 5) & !0xC000u32) | 0x8000;
    let pad_in = (pad & !0u32) | (0x40u32 | 0x02);
    assert({
        &&& handed & 0x1F == code
        &&& handed & 0xF000 == 0xC000
        &&& handed & 0xFFFF_0FE0 == ctrl & 0xFFFF_0FE0
        &&& pad_out & 0xC0 == 0x40
        &&& pad_out & 0xFFFF_FF3F == pad & 0xFFFF_FF3F
        &&& read & 0x1F == 5
        &&& read & 0xC000 == 0x8000
        &&& read & 0xFFFF_3FE0 == ctrl & 0xFFFF_3FE0
        &&& pad_in & 0x42 == 0x42
        &&& pad_in & 0xFFFF_FFBD == pad & 0xFFFF_FFBD
    }) by (bit_vector)
        requires
            code <= 31,
            handed == (((ctrl & !0x1Fu32) | code) & !(0xC000u32 | 0x3000)) | 0xC000,
            pad_out == (pad & !0x80u32) | 0x40,
            read == (((ctrl & !0x1Fu32) | 5) & !0xC000u32) | 0x8000,
            pad_in == (pad & !0u32) | (0x40u32 | 0x02),
    ;
}

/// Law: the functions of a pin are numbered as the hardware does: eight alternatives
/// around the general function 5, and 31 for none. No two are alike.
pub proof fn law_function_numbers(func: GpioFunction, other: GpioFunction)
    ensures
        function_code(func) == function_code(other) ==> func == other,
        function_code(GpioFunction::Gpio) == 5,
        function_code(GpioFunction::Null) == 31,
        function_code(GpioFunction::Alt0) == 0,
        function_code(GpioFunction::Alt4) == 4,
        function_code(func) <= 8 || func is Null,
        function_code(GpioFunction::Alt1) == 1,
        function_code(GpioFunction::Alt2) == 2,
        function_code(GpioFunction::Alt3) == 3,
        function_code(GpioFunction::Alt6) == 6,
        function_code(GpioFunction::Alt7) == 7,
        function_code(GpioFunction::Alt8) == 8,
{
}

/// Law: an output is driven to the level that was asked for and to no other, and the
/// rest of its control register stays.
pub proof fn law_levels_are_driven(
    gpio: Rp1Gpio,
    pin: u8,
    status: u32,
    ctrl: u32,
    high: RegOp,
    low: RegOp,
    toggled: RegOp,
)
    requires
        call_ensures(Rp1Gpio::set_high, (&gpio, pin), high),
        call_ensures(Rp1Gpio::set_low, (&gpio, pin), low),
        call_ensures(Rp1Gpio::toggle, (&gpio, pin, status), toggled),
    ensures
        high.spec_addr() == gpio.ctrl_addr(pin),
        low.spec_addr() == gpio.ctrl_addr(pin),
        toggled.spec_addr() == gpio.ctrl_addr(pin),
        high.applied(ctrl) & 0x3000 == 0x3000,
        low.applied(ctrl) & 0x3000 == 0x2000,
        toggled.applied(ctrl) & 0x3000 == if status & 0x0002_0000 != 0 {
            0x2000
        } else {
            0x3000u32
        },
        high.applied(ctrl) & 0xFFFF_CFFF == ctrl & 0xFFFF_CFFF,
        low.applied(ctrl) & 0xFFFF_CFFF == ctrl & 0xFFFF_CFFF,
        toggled.applied(ctrl) & 0xFFFF_CFFF == ctrl & 0xFFFF_CFFF,
{
    lemma_level_field(ctrl);
}

pub(crate) proof fn lemma_level_field(ctrl: u32)
    ensures
        ((ctrl & !0x3000u32) | 0x3000) & 0x3000 == 0x3000,
        ((ctrl & !0x3000u32) | 0x2000) & 0x3000 == 0x2000,
        ((ctrl & !0x3000u32) | 0) & 0x3000 == 0,
        ((ctrl & !0x3000u32) | 0x3000) & 0xFFFF_CFFF == ctrl & 0xFFFF_CFFF,
        ((ctrl & !0x3000u32) | 0x2000) & 0xFFFF_CFFF == ctrl & 0xFFFF_CFFF,
        ((ctrl & !0x3000u32) | 0) & 0xFFFF_CFFF == ctrl & 0xFFFF_CFFF,
{
    assert({
        &&& ((ctrl & !0x3000u32) | 0x3000) & 0x3000 == 0x3000
        &&& ((ctrl & !0x3000u32) | 0x2000) & 0x3000 == 0x2000
        &&& ((ctrl & !0x3000u32) | 0) & 0x3000 == 0
        &&& ((ctrl & !0x3000u32) | 0x3000) & 0xFFFF_CFFF == ctrl & 0xFFFF_CFFF
        &&& ((ctrl & !0x3000u32) | 0x2000) & 0xFFFF_CFFF == ctrl & 0xFFFF_CFFF
        &&& ((ctrl & !0x3000u32) | 0) & 0xFFFF_CFFF == ctrl & 0xFFFF_CFFF
    }) by (bit_vector);
}

/// Law: while the edges of a pin are chosen its interrupt is off; it comes on last,
/// after the pin was reset, and then the registers are read back. Bit 21 lets
/// rising edges through, bit 20 falling ones. Turning it off ends with it off, no
/// edge let through, and the pin reset.
pub proof fn law_interrupt_is_armed_last(gpio: Rp1Gpio, pin: u8, rising: bool, falling: bool)
    requires
        gpio.wf(),
        pin < 28,
    ensures
        ({
            let on = gpio.irq_on_ops(pin, rising, falling);
            let off = gpio.irq_off_ops(pin);
            let mask = RegOp::Write { addr: (gpio.base + 0x311C) as u64, value: 1u32 << pin };
            let unmask = RegOp::Write { addr: (gpio.base + 0x211C) as u64, value: 1u32 << pin };
            let reset = RegOp::Write {
                addr: (gpio.base + 0x2000 + 8 * pin + 4) as u64,
                value: 0x1000_0000,
            };
            let edges = (if rising {
                0x0020_0000int
            } else {
                0
            }) + (if falling {
                0x0010_0000int
            } else {
                0
            });
            let ctrl = (gpio.base + 8 * pin + 4) as u64;
            &&& on[0] == mask
            &&& on[1] == (RegOp::Modify { addr: ctrl, clear: 0x00F0_0000, set: edges as u32 })
            &&& on[2] == reset
            &&& on[3] == unmask
            &&& forall|i: int| 4 <= i < on.len() ==> (#[trigger] on[i]) is Readback
            &&& exists|i: int|
                4 <= i < on.len() && #[trigger] on[i] == (RegOp::Readback {
                    addr: (gpio.base + 0x11C) as u64,
                })
            &&& off == seq![
                mask,
                (RegOp::Modify { addr: ctrl, clear: 0x00F0_0000, set: 0 }),
                reset,
            ]
        }),
{
    let on = gpio.irq_on_ops(pin, rising, falling);
    assert(on[8] == (RegOp::Readback { addr: (gpio.base + 0x11C) as u64 }));
}

/// Law: the pull field selects no resistor, the one to ground or the one to the
/// supply, one bit each, and leaves the rest of the pad alone.
pub proof fn law_pull_field(pull: GpioPull)
    ensures
        pull_field(pull) == if pull is Down {
            0x4
        } else if pull is Up {
            0x8
        } else {
            0u32
        },
{
}

/// Law: a press is never dropped: a pending falling edge on the stop button is
/// always reported, as a press unless the button is already back up.
pub proof fn law_press_is_reported(status: u32)
    requires
        (status & EVENT_MASK) & EVENT_FALLING != 0,
    ensures
        pin_plan(true, status, true) is EstopButton,
        status & STATUS_LEVEL == 0 ==> pin_plan(true, status, true) == (PinAction::EstopButton {
            pressed: true,
        }),
{
    let events = status & EVENT_MASK;
    assert(events != 0) by (bit_vector)
        requires
            events & 0x0010_0000 != 0,
    ;
}

/// Law: bit 21 of a status register tells a rising edge and bit 20 a falling one; the function
/// is the five low bits of the control register, and a pin's own bit in the interrupt register
/// tells that it asks for attention.
pub proof fn law_registers_are_read(
    status: u32,
    rising: bool,
    falling: bool,
    events: u32,
    ctrl: u32,
    code: u32,
    pins: u32,
    pin: u8,
    pending: bool,
)
    requires
        call_ensures(Rp1Gpio::has_rising_event, (status,), rising),
        call_ensures(Rp1Gpio::has_falling_event, (status,), falling),
        call_ensures(Rp1Gpio::get_pending_events, (status,), events),
        call_ensures(Rp1Gpio::get_function, (ctrl,), code),
        call_ensures(is_pending, (pins, pin), pending),
    ensures
        rising <==> status & 0x0020_0000 != 0,
        falling <==> status & 0x0010_0000 != 0,
        events == status & 0x00F0_0000,
        code == ctrl & 0x1F,
        pending <==> pins & (1u32 << pin) != 0,
{
    lemma_event_bits(status);
}

} // verus!
