//! Debug console UART. The firmware has set it up.

use vstd::prelude::*;

use crate::platform::memory_map::BCM2712_UART10_BASE;
use crate::platform::mmio::RegOp;
use crate::platform::pl011::{FR_RXFE, FR_TXFF, UART_DR};

verus! {

/// What goes out for a byte of text: a line feed goes behind a carriage return.
pub open spec fn console_byte(byte: u8) -> Seq<u8> {
    if byte == 0x0A {
        seq![0x0Du8, 0x0Au8]
    } else {
        seq![byte]
    }
}

/// What goes out for text.
pub open spec fn console_stream(text: Seq<u8>) -> Seq<u8>
    decreases text.len(),
{
    if text.len() == 0 {
        Seq::empty()
    } else {
        console_stream(text.drop_last()) + console_byte(text.last())
    }
}

/// The console UART.
#[derive(Debug, Clone, Copy, PartialEq, Eq, Structural)]
pub struct Rp1Uart {
    pub base: u64,
}

impl Rp1Uart {
    pub fn new() -> (uart: Self)
        ensures
            uart.base == BCM2712_UART10_BASE,
    {
        Rp1Uart { base: BCM2712_UART10_BASE }
    }

    /// Nothing is done: the firmware's set-up keeps the early console alive.
    pub fn init(&mut self)
        ensures
            *final(self) == *old(self),
    {
    }

    /// Send a byte, once there is room.
    pub fn putc(&self, c: u8) -> (op: RegOp)
        requires
            self.base + UART_DR <= u64::MAX,
        ensures
            op == (RegOp::Write { addr: (self.base + UART_DR) as u64, value: c as u32 }),
    {
        RegOp::Write { addr: self.base + UART_DR, value: c as u32 }
    }

    /// The byte of the data register, once there is one.
    pub fn getc(data: u32) -> (byte: u8)
        ensures
            byte == (data & 0xFF) as u8,
    {
        (data & 0xFF) as u8
    }

    /// The byte of the data register, if the flags say that there is one.
    pub fn try_getc(flags: u32, data: u32) -> (byte: Option<u8>)
        ensures
            byte == if flags & FR_RXFE != 0 {
                None
            } else {
                Some((data & 0xFF) as u8)
            },
    {
        if flags & FR_RXFE != 0 {
            None
        } else {
            Some((data & 0xFF) as u8)
        }
    }

    /// There is room to send.
    pub fn can_write(flags: u32) -> (room: bool)
        ensures
            room == (flags & FR_TXFF == 0),
    {
        flags & FR_TXFF == 0
    }

    /// There is a byte to read.
    pub fn can_read(flags: u32) -> (data: bool)
        ensures
            data == (flags & FR_RXFE == 0),
    {
        flags & FR_RXFE == 0
    }

    /// The bytes to send for text.
    pub fn console_bytes(text: &[u8]) -> (bytes: Vec<u8>)
        ensures
            bytes@ == console_stream(text@),
    {
        let mut bytes: Vec<u8> = Vec::new();
        let mut i: usize = 0;
        assert(text@.subrange(0, 0) =~= Seq::empty());
        while i < text.len()
            invariant
                i <= text@.len(),
                bytes@ =~= console_stream(text@.subrange(0, i as int)),
            decreases text@.len() - i,
        {
            proof {
                let next = text@.subrange(0, i + 1);
                assert(next.drop_last() =~= text@.subrange(0, i as int));
                assert(next.last() == text@[i as int]);
            }
            if text[i] == 0x0A {
                bytes.push(0x0D);
            }
            bytes.push(text[i]);
            i = i + 1;
        }
        assert(text@.subrange(0, text@.len() as int) =~= text@);
        bytes
    }
}

/// Law: text goes out unchanged, but for a carriage return before each line feed: cutting
/// text in two cuts what goes out in two.
pub proof fn law_console_text(first: Seq<u8>, byte: u8)
    ensures
        console_stream(Seq::empty()) == Seq::<u8>::empty(),
        byte != 10 ==> console_stream(first.push(byte)) == console_stream(first).push(byte),
        byte == 10 ==> console_stream(first.push(byte)) == console_stream(first).push(13).push(10),
{
    assert(first.push(byte).drop_last() =~= first);
    assert(console_stream(first) + seq![byte] =~= console_stream(first).push(byte));
    assert(console_stream(first) + seq![0x0Du8, 0x0Au8] =~= console_stream(first).push(13).push(10));
}

} // verus!
