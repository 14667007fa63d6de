//! PL011 UART of the control link.
//!
//! The driver's decisions, from register values to register accesses.

use vstd::prelude::*;

use crate::platform::mmio::RegOp;

verus! {

/// Reference clock of the RP1's UARTs.
pub const DEFAULT_UART_CLK_HZ: u32 = 48_000_000;

/// Register offsets.
pub const UART_DR: u64 = 0x00;

pub const UART_RSRECR: u64 = 0x04;

pub const UART_FR: u64 = 0x18;

pub const UART_IBRD: u64 = 0x24;

pub const UART_FBRD: u64 = 0x28;

pub const UART_LCRH: u64 = 0x2C;

pub const UART_CR: u64 = 0x30;

pub const UART_IMSC: u64 = 0x38;

pub const UART_ICR: u64 = 0x44;

pub const UART_DMACR: u64 = 0x48;

/// Flags: sending FIFO empty, sending FIFO full, receiving FIFO empty, busy.
pub const FR_TXFE: u32 = 0x80;

pub const FR_TXFF: u32 = 0x20;

pub const FR_RXFE: u32 = 0x10;

pub const FR_BUSY: u32 = 0x08;

/// FIFOs on, eight data bits.
pub const LCRH_FEN: u32 = 0x10;

pub const LCRH_WLEN_8: u32 = 0x60;

/// Enable, transmit, receive.
pub const CR_UARTEN: u32 = 0x001;

pub const CR_TXE: u32 = 0x100;

pub const CR_RXE: u32 = 0x200;

pub const IMSC_RXIM: u32 = 0x10;

pub const ICR_ALL: u32 = 0x7FF;

/// Error bits of the data register.
pub const DR_ERR_MASK: u32 = 0xF00;

/// Framing, parity, break and overrun flags in the low four bits.
#[derive(Debug, Clone, Copy, PartialEq, Eq, Structural)]
pub struct ReceiveError(pub u8);

#[derive(Debug, Clone, Copy, PartialEq, Eq, Structural)]
pub enum InitError {
    BaudRate,
    NotIdle,
    Receive(ReceiveError),
    /// The clock of a drain went back.
    ClockRegression,
    /// A drain took too long.
    TimedOut,
}

/// The divisor of the reference clock in sixty-fourths, rounded to the nearest.
pub open spec fn divisor64(baud: u32, uart_clk: u32) -> int {
    (uart_clk * 4 + baud as int / 2) / (baud as int)
}

/// The divisor can be programmed: 1 to 65535, without a fraction at the end.
pub open spec fn baud_possible(baud: u32, uart_clk: u32) -> bool {
    baud != 0 && 64 <= divisor64(baud, uart_clk) <= 65535 * 64
}

/// The state of the line before it is set up.
pub open spec fn cold_start_error(flags: u32, errors: u32) -> Option<InitError> {
    if errors & 0xF != 0 {
        Some(InitError::Receive(ReceiveError((errors & 0xF) as u8)))
    } else if flags & (FR_TXFE | FR_RXFE | FR_BUSY) != FR_TXFE | FR_RXFE {
        Some(InitError::NotIdle)
    } else {
        None
    }
}

/// A byte in: a latched error first, then emptiness, then an error of the byte
/// itself.
pub open spec fn byte_in(flags: u32, status: u32, data: u32) -> Result<Option<u8>, ReceiveError> {
    if status & 0xF != 0 {
        Err(ReceiveError((status & 0xF) as u8))
    } else if flags & FR_RXFE != 0 {
        Ok(None)
    } else if data & DR_ERR_MASK != 0 {
        Err(ReceiveError(((data & DR_ERR_MASK) >> 8) as u8))
    } else {
        Ok(Some((data & 0xFF) as u8))
    }
}

/// A PL011 UART at a fixed base.
#[derive(Debug, Clone, Copy, PartialEq, Eq, Structural)]
pub struct Pl011 {
    pub base: u64,
}

impl Pl011 {
    /// The registers lie in the address space.
    pub open spec fn wf(self) -> bool {
        self.base + 0x1000 <= u64::MAX
    }

    /// A UART at `base`, which must be the base of a mapped PL011.
    pub fn new(base: u64) -> (uart: Self)
        ensures
            uart.base == base,
    {
        Pl011 { base }
    }

    /// The address of a register.
    pub fn reg(&self, offset: u64) -> (addr: u64)
        requires
            self.wf(),
            offset < 0x1000,
        ensures
            addr == self.base + offset,
    {
        self.base + offset
    }

    pub open spec fn write(self, offset: u64, value: u32) -> RegOp {
        RegOp::Write { addr: (self.base + offset) as u64, value }
    }

    /// The first step of a set-up: everything off.
    pub fn disable(&self) -> (ops: Vec<RegOp>)
        requires
            self.wf(),
        ensures
            ops@ == seq![
                self.write(UART_CR, 0),
                self.write(UART_IMSC, 0),
                self.write(UART_DMACR, 0),
            ],
    {
        let mut ops: Vec<RegOp> = Vec::new();
        ops.push(RegOp::Write { addr: self.base + UART_CR, value: 0 });
        ops.push(RegOp::Write { addr: self.base + UART_IMSC, value: 0 });
        ops.push(RegOp::Write { addr: self.base + UART_DMACR, value: 0 });
        assert(ops@ =~= seq![
            self.write(UART_CR, 0),
            self.write(UART_IMSC, 0),
            self.write(UART_DMACR, 0),
        ]);
        ops
    }

    /// The second step, from what the flag and error registers read once the
    /// UART is off: the accesses that set it up, or why it stays off. A line
    /// that is not idle is refused, without waiting and without keeping what it
    /// holds. A latched error is cleared.
    pub fn init(&self, baud: u32, uart_clk: u32, flags: u32, errors: u32) -> (result: (
        Vec<RegOp>,
        Result<(), InitError>,
    ))
        requires
            self.wf(),
        ensures
            if !baud_possible(baud, uart_clk) {
                &&& result.0@ == Seq::<RegOp>::empty()
                &&& result.1 == Err::<(), InitError>(InitError::BaudRate)
            } else {
                match cold_start_error(flags, errors) {
                    Some(InitError::Receive(error)) => {
                        &&& result.0@ == seq![self.write(UART_RSRECR, 0)]
                        &&& result.1 == Err::<(), InitError>(InitError::Receive(error))
                    },
                    Some(error) => {
                        &&& result.0@ == Seq::<RegOp>::empty()
                        &&& result.1 == Err::<(), InitError>(error)
                    },
                    None => {
                        let div = divisor64(baud, uart_clk);
                        &&& result.1 == Ok::<(), InitError>(())
                        &&& result.0@ == seq![
                            self.write(UART_LCRH, 0),
                            self.write(UART_IBRD, (div / 64) as u32),
                            self.write(UART_FBRD, (div % 64) as u32),
                            self.write(UART_LCRH, LCRH_WLEN_8 | LCRH_FEN),
                            self.write(UART_ICR, ICR_ALL),
                            self.write(UART_CR, CR_UARTEN | CR_TXE | CR_RXE),
                        ]
                    },
                }
            },
    {
        let mut ops: Vec<RegOp> = Vec::new();
        assert(ops@ =~= Seq::<RegOp>::empty());
        if baud == 0 {
            return (ops, Err(InitError::BaudRate));
        }
        let b: u64 = baud as u64;
        let div64: u64 = (uart_clk as u64 * 4 + b / 2) / b;
        assert(div64 == divisor64(baud, uart_clk));
        if div64 < 64 || div64 > 65535 * 64 {
            return (ops, Err(InitError::BaudRate));
        }
        let latched: u32 = errors & 0xF;
        if latched != 0 {
            ops.push(RegOp::Write { addr: self.base + UART_RSRECR, value: 0 });
            assert(ops@ =~= seq![self.write(UART_RSRECR, 0)]);
            return (ops, Err(InitError::Receive(ReceiveError(latched as u8))));
        }
        if flags & (FR_TXFE | FR_RXFE | FR_BUSY) != FR_TXFE | FR_RXFE {
            return (ops, Err(InitError::NotIdle));
        }
        ops.push(RegOp::Write { addr: self.base + UART_LCRH, value: 0 });
        ops.push(RegOp::Write { addr: self.base + UART_IBRD, value: (div64 / 64) as u32 });
        ops.push(RegOp::Write { addr: self.base + UART_FBRD, value: (div64 % 64) as u32 });
        ops.push(RegOp::Write { addr: self.base + UART_LCRH, value: LCRH_WLEN_8 | LCRH_FEN });
        ops.push(RegOp::Write { addr: self.base + UART_ICR, value: ICR_ALL });
        ops.push(RegOp::Write { addr: self.base + UART_CR, value: CR_UARTEN | CR_TXE | CR_RXE });
        proof {
            let div = divisor64(baud, uart_clk);
            assert(ops@ =~= seq![
                self.write(UART_LCRH, 0),
                self.write(UART_IBRD, (div / 64) as u32),
                self.write(UART_FBRD, (div % 64) as u32),
                self.write(UART_LCRH, LCRH_WLEN_8 | LCRH_FEN),
                self.write(UART_ICR, ICR_ALL),
                self.write(UART_CR, CR_UARTEN | CR_TXE | CR_RXE),
            ]);
        }
        (ops, Ok(()))
    }

    /// The data register is to be read: there is a byte and no latched error.
    pub fn has_data(flags: u32, status: u32) -> (data: bool)
        ensures
            data == (status & 0xF == 0 && flags & FR_RXFE == 0),
    {
        status & 0xF == 0 && flags & FR_RXFE == 0
    }

    /// A byte in, from the flag register, the error register read after it, and
    /// the data register where [`Pl011::has_data`]. Only an empty FIFO without
    /// error is `Ok(None)`. The error latch is to be cleared on any error.
    pub fn read_byte(flags: u32, status: u32, data: u32) -> (result: Result<
        Option<u8>,
        ReceiveError,
    >)
        ensures
            result == byte_in(flags, status, data),
    {
        let latched: u32 = status & 0xF;
        if latched != 0 {
            return Err(ReceiveError(latched as u8));
        }
        if flags & FR_RXFE != 0 {
            return Ok(None);
        }
        if data & DR_ERR_MASK != 0 {
            return Err(ReceiveError(((data & DR_ERR_MASK) >> 8) as u8));
        }
        Ok(Some((data & 0xFF) as u8))
    }

    /// Clear the error latch.
    pub fn clear_error(&self) -> (op: RegOp)
        requires
            self.wf(),
        ensures
            op == self.write(UART_RSRECR, 0),
    {
        RegOp::Write { addr: self.base + UART_RSRECR, value: 0 }
    }

    /// FIFO and shift register are empty.
    pub fn tx_idle(flags: u32) -> (idle: bool)
        ensures
            idle == (flags & (FR_TXFE | FR_BUSY) == FR_TXFE),
    {
        flags & (FR_TXFE | FR_BUSY) == FR_TXFE
    }

    /// A byte out, unless the FIFO is full.
    pub fn try_write_byte(&self, flags: u32, b: u8) -> (op: Option<RegOp>)
        requires
            self.wf(),
        ensures
            op == if flags & FR_TXFF != 0 {
                None
            } else {
                Some(self.write(UART_DR, b as u32))
            },
    {
        if flags & FR_TXFF != 0 {
            return None;
        }
        Some(RegOp::Write { addr: self.base + UART_DR, value: b as u32 })
    }

    pub fn enable_rx_irq(&self) -> (op: RegOp)
        requires
            self.wf(),
        ensures
            op == self.write(UART_IMSC, IMSC_RXIM),
    {
        RegOp::Write { addr: self.base + UART_IMSC, value: IMSC_RXIM }
    }

    /// Clear all pending interrupts.
    pub fn clear_irq(&self) -> (op: RegOp)
        requires
            self.wf(),
        ensures
            op == self.write(UART_ICR, ICR_ALL),
    {
        RegOp::Write { addr: self.base + UART_ICR, value: ICR_ALL }
    }
}

/// Law: a byte is delivered only if no error was latched or came with it, and
/// an empty FIFO is reported only without a latched error.
pub proof fn law_no_byte_beside_error(flags: u32, status: u32, data: u32)
    requires
        status & 0xF != 0 || (flags & FR_RXFE == 0 && data & DR_ERR_MASK != 0),
    ensures
        byte_in(flags, status, data) is Err,
{
}

/// Law: the divisor is the sixty-fourths of the clock cycles in a sixteenth of a bit,
/// rounded to the nearest; a rate is refused exactly if that is not from 1 to 65535.
pub proof fn law_divisor_is_nearest(baud: u32, uart_clk: u32)
    requires
        baud > 0,
    ensures
        ({
            let d = divisor64(baud, uart_clk);
            &&& 2 * d * baud <= 8 * uart_clk + baud
            &&& 8 * uart_clk < 2 * (d + 1) * baud
            &&& baud_possible(baud, uart_clk) <==> 64 <= d <= 4_194_240
        }),
        !baud_possible(0, uart_clk),
{
    let b = baud as int;
    let x = uart_clk * 4 + b / 2;
    let d = divisor64(baud, uart_clk);
    vstd::arithmetic::div_mod::lemma_fundamental_div_mod(x, b);
    vstd::arithmetic::div_mod::lemma_mod_bound(x, b);
    assert(d * b <= x < (d + 1) * b) by (nonlinear_arith)
        requires
            x == b * d + x % b,
            0 <= x % b < b,
    ;
    assert(2 * d * b == 2 * (d * b) && 2 * (d + 1) * b == 2 * ((d + 1) * b)) by (nonlinear_arith);
}

/// Law: a byte is handed out exactly if no error is latched (low four bits of the status),
/// the FIFO is not empty (bit 4 of the flags) and the byte has no error of its own (bits 8
/// to 11); it is then the low eight bits. Without a latched error an empty FIFO is no byte.
pub proof fn law_byte_is_taken(flags: u32, status: u32, data: u32)
    ensures
        ({
            let result = byte_in(flags, status, data);
            let latched = status & 0xF != 0;
            let empty = flags & 0x10 != 0;
            let broken = data & 0xF00 != 0;
            &&& result == Ok::<Option<u8>, ReceiveError>(None) <==> !latched && empty
            &&& !latched && !empty && !broken <==> result is Ok && result->Ok_0 is Some
            &&& !latched && !empty && !broken ==> result == Ok::<Option<u8>, ReceiveError>(
                Some((data as int % 256) as u8),
            )
            &&& latched ==> result == Err::<Option<u8>, ReceiveError>(
                ReceiveError((status as int % 16) as u8),
            )
            &&& !latched && !empty && broken ==> result == Err::<Option<u8>, ReceiveError>(
                ReceiveError((data as int / 256 % 16) as u8),
            )
        }),
{
    assert({
        &&& data & 0xFF == data % 256
        &&& status & 0xF == status % 16
        &&& (data & 0xF00) >> 8 == data / 256 % 16
    }) by (bit_vector);
}

/// Law: the line may be set up exactly if no error is latched, both FIFOs are empty (bits 7
/// and 4) and nothing is being sent (bit 3). A latched error comes first.
pub proof fn law_line_is_idle_before_set_up(flags: u32, errors: u32)
    ensures
        cold_start_error(flags, errors) is None <==> errors & 0xF == 0 && flags & 0x80 != 0 && flags
            & 0x10 != 0 && flags & 0x08 == 0,
        errors & 0xF != 0 <==> cold_start_error(flags, errors) is Some && cold_start_error(
            flags,
            errors,
        )->0 is Receive,
{
    assert(flags & (0x80u32 | 0x10 | 0x08) == 0x80u32 | 0x10 <==> (flags & 0x80 != 0 && flags & 0x10
        != 0 && flags & 0x08 == 0)) by (bit_vector);
}

/// Law: what the registers of the UART are asked. A byte goes to the data register exactly
/// if the FIFO has room (bit 5); the line has sent everything exactly if the FIFO is empty
/// (bit 7) and it is not busy (bit 3).
pub proof fn law_uart_sends(
    uart: Pl011,
    flags: u32,
    byte: u8,
    op: Option<RegOp>,
    idle: bool,
    data: bool,
    status: u32,
)
    requires
        uart.wf(),
        call_ensures(Pl011::try_write_byte, (&uart, flags, byte), op),
        call_ensures(Pl011::tx_idle, (flags,), idle),
        call_ensures(Pl011::has_data, (flags, status), data),
    ensures
        op is Some <==> flags & 0x20 == 0,
        op is Some ==> op == Some(RegOp::Write { addr: uart.base, value: byte as u32 }),
        idle <==> flags & 0x80 != 0 && flags & 0x08 == 0,
        data <==> status & 0xF == 0 && flags & 0x10 == 0,
{
    assert(flags & (0x80u32 | 0x08) == 0x80 <==> (flags & 0x80 != 0 && flags & 0x08 == 0))
        by (bit_vector);
}

/// Law: the set-up of an idle line ends with eight data bits and FIFOs on, the divisor
/// programmed, everything pending cleared, and only then the UART on with both directions.
pub proof fn law_uart_set_up(
    uart: Pl011,
    baud: u32,
    clk: u32,
    flags: u32,
    errors: u32,
    result: (Vec<RegOp>, Result<(), InitError>),
)
    requires
        uart.wf(),
        call_ensures(Pl011::init, (&uart, baud, clk, flags, errors), result),
    ensures
        result.1 is Ok <==> baud_possible(baud, clk) && cold_start_error(flags, errors) is None,
        !baud_possible(baud, clk) <==> result.1 == Err::<(), InitError>(InitError::BaudRate),
        result.1 is Ok ==> {
            let ops = result.0@;
            let d = divisor64(baud, clk);
            &&& ops.len() == 6
            &&& ops[0] == (RegOp::Write { addr: (uart.base + 0x2C) as u64, value: 0 })
            &&& ops[1] == (RegOp::Write { addr: (uart.base + 0x24) as u64, value: (d / 64) as u32 })
            &&& ops[2] == (RegOp::Write { addr: (uart.base + 0x28) as u64, value: (d % 64) as u32 })
            &&& ops[3].spec_addr() == uart.base + 0x2C && ops[3].applied(0) == 0x70
            &&& ops[4] == (RegOp::Write { addr: (uart.base + 0x44) as u64, value: 0x7FF })
            &&& ops[5].spec_addr() == uart.base + 0x30 && ops[5].applied(0) == 0x301
        },
        result.1 is Err && !(result.1->Err_0 is Receive) ==> result.0@.len() == 0,
{
    assert(0x60u32 | 0x10 == 0x70 && 0x001u32 | 0x100 | 0x200 == 0x301) by (bit_vector);
}

} // verus!
