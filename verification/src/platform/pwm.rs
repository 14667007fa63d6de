//! RP1 PWM.
//!
//! A controller has a global register and four channels sixteen bytes apart.
//! Channels are numbered from one here; the hardware numbers them from zero.

use vstd::prelude::*;

use crate::platform::memory_map::{RP1_CLOCKS_BASE, RP1_PWM0_BASE, RP1_PWM1_BASE};
use crate::platform::mmio::RegOp;

verus! {

/// Channels of a controller.
pub const NUM_CHANNELS: u8 = 4;

/// Trailing-edge modulation, FIFO mask.
pub const CHAN_CTRL_DEFAULT: u32 = 0x0000_0101;

/// Assumed input clock.
pub const RP1_PWM_CLOCK_HZ: u32 = 50_000_000;

/// Global register; its top bit puts channel settings into effect.
pub const GLOBAL_CTRL: u64 = 0x00;

pub const SET_UPDATE: u32 = 0x8000_0000;

pub const CHAN_STRIDE: u64 = 0x10;

pub const CHAN_CTRL_BASE: u64 = 0x14;

pub const CHAN_RANGE_BASE: u64 = 0x18;

pub const CHAN_DUTY_BASE: u64 = 0x20;

/// Registers of the PWM0 clock.
pub const CLK_PWM0_CTRL: u64 = 0x74;

pub const CLK_PWM0_DIV_INT: u64 = 0x78;

pub const CLK_PWM0_DIV_FRAC: u64 = 0x7C;

pub const CLK_CTRL_ENABLE: u32 = 0x0000_0800;

pub const CLK_CTRL_AUXSRC_MASK: u32 = 0x0000_03E0;

pub const CLK_CTRL_SRC_MASK: u32 = 0x0000_0007;

/// The crystal oscillator in the auxiliary source field.
pub const CLK_AUXSRC_XOSC: u32 = 0x0000_0040;

/// The auxiliary source in the source field.
pub const CLK_SRC_AUX_SEL: u32 = 0x0000_0001;

pub const CLK_PWM0_DIV_INT_VALUE: u32 = 2;

/// A channel number that exists.
pub open spec fn channel_exists(channel: u8) -> bool {
    1 <= channel <= NUM_CHANNELS
}

/// Offset of a channel's control register, by hardware number.
pub fn chan_ctrl(ch: u8) -> (offset: u64)
    ensures
        offset == CHAN_CTRL_BASE + ch * CHAN_STRIDE,
{
    CHAN_CTRL_BASE + ch as u64 * CHAN_STRIDE
}

/// Offset of a channel's period register.
pub fn chan_range(ch: u8) -> (offset: u64)
    ensures
        offset == CHAN_RANGE_BASE + ch * CHAN_STRIDE,
{
    CHAN_RANGE_BASE + ch as u64 * CHAN_STRIDE
}

/// Offset of a channel's duty register.
pub fn chan_duty(ch: u8) -> (offset: u64)
    ensures
        offset == CHAN_DUTY_BASE + ch * CHAN_STRIDE,
{
    CHAN_DUTY_BASE + ch as u64 * CHAN_STRIDE
}

/// The bit that enables a channel.
pub open spec fn enable_bit(ch: u8) -> u32 {
    if ch == 0 {
        1
    } else if ch == 1 {
        2
    } else if ch == 2 {
        4
    } else {
        8
    }
}

/// The bit that enables a channel, by hardware number.
pub fn chan_enable(ch: u8) -> (bit: u32)
    requires
        ch < NUM_CHANNELS,
    ensures
        bit == enable_bit(ch),
        bit == 1u32 << ch,
{
    proof {
        assert(1u32 << 0u8 == 1 && 1u32 << 1u8 == 2 && 1u32 << 2u8 == 4 && 1u32 << 3u8 == 8)
            by (bit_vector);
    }
    1u32 << ch
}

/// The accesses that clock PWM0.
pub open spec fn clock_ops() -> Seq<RegOp> {
    seq![
        (RegOp::Write {
            addr: (RP1_CLOCKS_BASE + CLK_PWM0_DIV_INT) as u64,
            value: CLK_PWM0_DIV_INT_VALUE,
        }),
        (RegOp::Write { addr: (RP1_CLOCKS_BASE + CLK_PWM0_DIV_FRAC) as u64, value: 0 }),
        (RegOp::Modify {
            addr: (RP1_CLOCKS_BASE + CLK_PWM0_CTRL) as u64,
            clear: CLK_CTRL_AUXSRC_MASK | CLK_CTRL_SRC_MASK,
            set: CLK_AUXSRC_XOSC | CLK_SRC_AUX_SEL,
        }),
        (RegOp::Modify {
            addr: (RP1_CLOCKS_BASE + CLK_PWM0_CTRL) as u64,
            clear: 0,
            set: CLK_CTRL_ENABLE,
        }),
    ]
}

/// The accesses that clock PWM0 from the crystal oscillator: divider, source,
/// enable.
pub fn enable_pwm0_clock() -> (ops: Vec<RegOp>)
    ensures
        ops@ == clock_ops(),
{
    let mut ops: Vec<RegOp> = Vec::new();
    ops.push(
        RegOp::Write { addr: RP1_CLOCKS_BASE + CLK_PWM0_DIV_INT, value: CLK_PWM0_DIV_INT_VALUE },
    );
    ops.push(RegOp::Write { addr: RP1_CLOCKS_BASE + CLK_PWM0_DIV_FRAC, value: 0 });
    ops.push(
        RegOp::Modify {
            addr: RP1_CLOCKS_BASE + CLK_PWM0_CTRL,
            clear: CLK_CTRL_AUXSRC_MASK | CLK_CTRL_SRC_MASK,
            set: CLK_AUXSRC_XOSC | CLK_SRC_AUX_SEL,
        },
    );
    ops.push(
        RegOp::Modify { addr: RP1_CLOCKS_BASE + CLK_PWM0_CTRL, clear: 0, set: CLK_CTRL_ENABLE },
    );
    ops
}

/// Address of the PWM0 clock control register.
pub fn pwm0_clock_ctrl() -> (addr: u64)
    ensures
        addr == RP1_CLOCKS_BASE + CLK_PWM0_CTRL,
{
    RP1_CLOCKS_BASE + CLK_PWM0_CTRL
}

/// Addresses of the PWM0 clock divider registers.
pub fn pwm0_clock_div() -> (addrs: (u64, u64))
    ensures
        addrs.0 == RP1_CLOCKS_BASE + CLK_PWM0_DIV_INT,
        addrs.1 == RP1_CLOCKS_BASE + CLK_PWM0_DIV_FRAC,
{
    (RP1_CLOCKS_BASE + CLK_PWM0_DIV_INT, RP1_CLOCKS_BASE + CLK_PWM0_DIV_FRAC)
}

/// A PWM controller.
#[derive(Debug, Clone, Copy, PartialEq, Eq, Structural)]
pub struct Rp1Pwm {
    pub base: u64,
}

impl Rp1Pwm {
    pub open spec fn wf(self) -> bool {
        self.base + 0x1000 <= u64::MAX
    }

    pub open spec fn write(self, offset: int, value: u32) -> RegOp {
        RegOp::Write { addr: (self.base + offset) as u64, value }
    }

    pub open spec fn modify_global(self, clear: u32, set: u32) -> RegOp {
        RegOp::Modify { addr: (self.base + GLOBAL_CTRL) as u64, clear, set }
    }

    /// Settings take effect.
    pub open spec fn latch(self) -> RegOp {
        self.modify_global(0, SET_UPDATE)
    }

    pub fn pwm0() -> (pwm: Self)
        ensures
            pwm.base == RP1_PWM0_BASE,
            pwm.wf(),
    {
        Rp1Pwm { base: RP1_PWM0_BASE }
    }

    pub fn pwm1() -> (pwm: Self)
        ensures
            pwm.base == RP1_PWM1_BASE,
            pwm.wf(),
    {
        Rp1Pwm { base: RP1_PWM1_BASE }
    }

    /// Disable every channel.
    pub fn init(&self) -> (op: RegOp)
        requires
            self.wf(),
        ensures
            op == self.write(GLOBAL_CTRL as int, SET_UPDATE),
    {
        RegOp::Write { addr: self.base + GLOBAL_CTRL, value: SET_UPDATE }
    }

    /// The accesses that enable a channel.
    pub open spec fn enable_ops(self, channel: u8) -> Seq<RegOp> {
        seq![
            self.write(CHAN_CTRL_BASE + (channel - 1) * CHAN_STRIDE, CHAN_CTRL_DEFAULT),
            self.modify_global(0, enable_bit((channel - 1) as u8) | SET_UPDATE),
        ]
    }

    /// Enable a channel.
    pub fn enable(&self, channel: u8) -> (ops: Vec<RegOp>)
        requires
            self.wf(),
            channel_exists(channel),
        ensures
            ops@ == self.enable_ops(channel),
    {
        let ch: u8 = channel - 1;
        let mut ops: Vec<RegOp> = Vec::new();
        ops.push(RegOp::Write { addr: self.base + chan_ctrl(ch), value: CHAN_CTRL_DEFAULT });
        ops.push(
            RegOp::Modify {
                addr: self.base + GLOBAL_CTRL,
                clear: 0,
                set: chan_enable(ch) | SET_UPDATE,
            },
        );
        ops
    }

    /// Disable a channel.
    pub fn disable(&self, channel: u8) -> (op: RegOp)
        requires
            self.wf(),
            channel_exists(channel),
        ensures
            op == self.modify_global(enable_bit((channel - 1) as u8), SET_UPDATE),
    {
        RegOp::Modify {
            addr: self.base + GLOBAL_CTRL,
            clear: chan_enable(channel - 1),
            set: SET_UPDATE,
        }
    }

    /// Set the period of a channel, in clock cycles.
    pub fn set_range(&self, channel: u8, range: u32) -> (ops: Vec<RegOp>)
        requires
            self.wf(),
            channel_exists(channel),
        ensures
            ops@ == seq![
                self.write(CHAN_RANGE_BASE + (channel - 1) * CHAN_STRIDE, range),
                self.latch(),
            ],
    {
        let mut ops: Vec<RegOp> = Vec::new();
        ops.push(RegOp::Write { addr: self.base + chan_range(channel - 1), value: range });
        ops.push(self.commit());
        ops
    }

    /// Set the high time of a channel, in clock cycles.
    pub fn set_data(&self, channel: u8, data: u32) -> (ops: Vec<RegOp>)
        requires
            self.wf(),
            channel_exists(channel),
        ensures
            ops@ == seq![
                self.write(CHAN_DUTY_BASE + (channel - 1) * CHAN_STRIDE, data),
                self.latch(),
            ],
    {
        let mut ops: Vec<RegOp> = Vec::new();
        ops.push(RegOp::Write { addr: self.base + chan_duty(channel - 1), value: data });
        ops.push(self.commit());
        ops
    }

    /// The accesses that set a frequency.
    pub open spec fn frequency_ops(self, channel: u8, freq_hz: u32) -> Seq<RegOp> {
        if freq_hz == 0 {
            Seq::empty()
        } else {
            seq![
                self.write(
                    CHAN_RANGE_BASE + (channel - 1) * CHAN_STRIDE,
                    RP1_PWM_CLOCK_HZ / freq_hz,
                ),
                self.latch(),
            ]
        }
    }

    /// Set the frequency of a channel. Zero changes nothing.
    pub fn set_frequency(&self, channel: u8, freq_hz: u32) -> (ops: Vec<RegOp>)
        requires
            self.wf(),
            freq_hz != 0 ==> channel_exists(channel),
        ensures
            ops@ == self.frequency_ops(channel, freq_hz),
    {
        if freq_hz == 0 {
            let none: Vec<RegOp> = Vec::new();
            assert(none@ =~= Seq::empty());
            return none;
        }
        self.set_range(channel, RP1_PWM_CLOCK_HZ / freq_hz)
    }

    /// Address of a channel's period register.
    pub fn range_addr(&self, channel: u8) -> (addr: u64)
        requires
            self.wf(),
            channel_exists(channel),
        ensures
            addr == self.base + CHAN_RANGE_BASE + (channel - 1) * CHAN_STRIDE,
    {
        self.base + chan_range(channel - 1)
    }

    /// The accesses that set a duty.
    pub open spec fn duty_ops(self, channel: u8, percent: u32, range: u32) -> Seq<RegOp> {
        seq![
            self.write(
                CHAN_DUTY_BASE + (channel - 1) * CHAN_STRIDE,
                duty_of(range, percent) as u32,
            ),
            self.latch(),
        ]
    }

    /// Set the duty of a channel in percent, at most a hundred, from what its
    /// period register reads.
    pub fn set_duty_cycle(&self, channel: u8, percent: u32, range: u32) -> (ops: Vec<RegOp>)
        requires
            self.wf(),
            channel_exists(channel),
        ensures
            ops@ == self.duty_ops(channel, percent, range),
    {
        let capped: u64 = if percent < 100 {
            percent as u64
        } else {
            100
        };
        assert(range * capped <= u32::MAX * 100) by (nonlinear_arith)
            requires
                0 <= range <= u32::MAX,
                0 <= capped <= 100,
        ;
        let data: u64 = (range as u64 * capped) / 100;
        proof {
            law_duty_within_range(range, percent);
        }
        self.set_data(channel, data as u32)
    }

    /// Addresses of the registers of a channel: global, control, period, duty.
    pub fn debug_regs(&self, channel: u8) -> (addrs: (u64, u64, u64, u64))
        requires
            self.wf(),
            channel >= 1,
        ensures
            addrs.0 == self.base + GLOBAL_CTRL,
            addrs.1 == self.base + CHAN_CTRL_BASE + (channel - 1) * CHAN_STRIDE,
            addrs.2 == self.base + CHAN_RANGE_BASE + (channel - 1) * CHAN_STRIDE,
            addrs.3 == self.base + CHAN_DUTY_BASE + (channel - 1) * CHAN_STRIDE,
    {
        let ch: u8 = channel - 1;
        (
            self.base + GLOBAL_CTRL,
            self.base + chan_ctrl(ch),
            self.base + chan_range(ch),
            self.base + chan_duty(ch),
        )
    }

    fn commit(&self) -> (op: RegOp)
        requires
            self.wf(),
        ensures
            op == self.latch(),
    {
        RegOp::Modify { addr: self.base + GLOBAL_CTRL, clear: 0, set: SET_UPDATE }
    }
}

/// The high time for a duty in percent.
pub open spec fn duty_of(range: u32, percent: u32) -> int {
    range * (if percent < 100 {
        percent as int
    } else {
        100
    }) / 100
}

/// Law: the high time never exceeds the period; a full duty fills it and a zero
/// duty is off.
pub proof fn law_duty_within_range(range: u32, percent: u32)
    ensures
        0 <= duty_of(range, percent) <= range,
        percent >= 100 ==> duty_of(range, percent) == range,
        percent == 0 ==> duty_of(range, percent) == 0,
{
    let p = if percent < 100 {
        percent as int
    } else {
        100
    };
    assert(0 <= (range * p) / 100 <= range) by (nonlinear_arith)
        requires
            0 <= p <= 100,
            0 <= range,
    ;
    assert((range * 100) / 100 == range);
    assert(range * 0 == 0);
}

/// Law: the registers of a channel: control, period and duty at 0x14, 0x18 and 0x20, sixteen
/// bytes on for each channel, counted from one. Each channel has an enable bit of its own in
/// the global register, whose top bit puts settings into effect.
pub proof fn law_channel_registers(
    pwm: Rp1Pwm,
    channel: u8,
    range: u32,
    percent: u32,
    regs: (u64, u64, u64, u64),
    period: Vec<RegOp>,
    high: Vec<RegOp>,
)
    requires
        pwm.wf(),
        1 <= channel <= 4,
        call_ensures(Rp1Pwm::debug_regs, (&pwm, channel), regs),
        call_ensures(Rp1Pwm::set_range, (&pwm, channel, range), period),
        call_ensures(Rp1Pwm::set_data, (&pwm, channel, range), high),
    ensures
        ({
            let at = pwm.base + 16 * (channel - 1);
            let latch = RegOp::Modify { addr: pwm.base, clear: 0, set: 0x8000_0000 };
            &&& regs.0 == pwm.base
            &&& regs.1 == at + 0x14
            &&& regs.2 == at + 0x18
            &&& regs.3 == at + 0x20
            &&& period@ == seq![(RegOp::Write { addr: regs.2, value: range }), latch]
            &&& high@ == seq![(RegOp::Write { addr: regs.3, value: range }), latch]
            &&& pwm.duty_ops(channel, percent, range)[0] == (RegOp::Write {
                addr: regs.3,
                value: duty_of(range, percent) as u32,
            })
            &&& pwm.enable_ops(channel)[0] == (RegOp::Write { addr: regs.1, value: 0x101 })
            &&& pwm.enable_ops(channel)[1].spec_addr() == pwm.base
        }),
{
}

/// Law: enabling a channel sets its own bit of the global register, disabling it clears that
/// bit, and both leave the bits of the other channels alone and put the settings into effect.
pub proof fn law_channel_is_switched(
    pwm: Rp1Pwm,
    channel: u8,
    other: u32,
    before: u32,
    off: RegOp,
)
    requires
        pwm.wf(),
        1 <= channel <= 4,
        1 <= other <= 4,
        call_ensures(Rp1Pwm::disable, (&pwm, channel), off),
    ensures
        ({
            let on = pwm.enable_ops(channel)[1].applied(before);
            let after = off.applied(before);
            let bit = 1u32 << ((other - 1) as u32);
            &&& on & 0x8000_0000 != 0 && after & 0x8000_0000 != 0
            &&& other == channel ==> on & bit != 0 && after & bit == 0
            &&& other != channel ==> on & bit == before & bit && after & bit == before & bit
            &&& off.spec_addr() == pwm.base
        }),
{
    let own = enable_bit((channel - 1) as u8);
    let n = (other - 1) as u32;
    let bit = 1u32 << n;
    let on = (before & !0u32) | (own | 0x8000_0000);
    let after = (before & !own) | 0x8000_0000;
    let same = own == bit;
    assert({
        &&& on & 0x8000_0000 != 0 && after & 0x8000_0000 != 0
        &&& own == bit ==> on & bit != 0 && after & bit == 0
        &&& own != bit ==> on & bit == before & bit && after & bit == before & bit
        &&& n == 0 ==> bit == 1
        &&& n == 1 ==> bit == 2
        &&& n == 2 ==> bit == 4
        &&& n == 3 ==> bit == 8
    }) by (bit_vector)
        requires
            bit == 1u32 << n,
            n < 4,
            own == 1 || own == 2 || own == 4 || own == 8,
            on == (before & !0u32) | (own | 0x8000_0000),
            after == (before & !own) | 0x8000_0000,
    ;
}

/// Law: the period of a frequency is the cycles of the 50 MHz clock in one of its periods,
/// rounded down; zero hertz changes nothing.
pub proof fn law_frequency_sets_the_period(pwm: Rp1Pwm, channel: u8, freq_hz: u32)
    requires
        pwm.wf(),
        1 <= channel <= 4,
    ensures
        pwm.frequency_ops(channel, 0).len() == 0,
        freq_hz > 0 ==> {
            let ops = pwm.frequency_ops(channel, freq_hz);
            let period = ops[0].applied(0);
            &&& ops.len() == 2
            &&& ops[0].spec_addr() == pwm.base + 0x18 + 16 * (channel - 1)
            &&& period * freq_hz <= 50_000_000 < (period + 1) * freq_hz
        },
{
    if freq_hz > 0 {
        let f = freq_hz as int;
        vstd::arithmetic::div_mod::lemma_fundamental_div_mod(50_000_000, f);
        vstd::arithmetic::div_mod::lemma_mod_bound(50_000_000, f);
        let q = 50_000_000int / f;
        assert(q * f <= 50_000_000 < (q + 1) * f) by (nonlinear_arith)
            requires
                50_000_000 == f * q + 50_000_000int % f,
                0 <= 50_000_000int % f < f,
        ;
    }
}

/// Law: a duty is the share of the period in percent, rounded down, and never more than all
/// of it.
pub proof fn law_duty_is_a_share(range: u32, percent: u32)
    ensures
        percent <= 100 ==> 100 * duty_of(range, percent) <= range * percent < 100 * (duty_of(
            range,
            percent,
        ) + 1),
        percent >= 100 ==> duty_of(range, percent) == range,
{
    law_duty_within_range(range, percent);
    if percent <= 100 {
        assert(range * percent == range * (if percent < 100 {
            percent as int
        } else {
            100
        }));
        vstd::arithmetic::div_mod::lemma_fundamental_div_mod(range * percent, 100);
    }
}

/// Law: the clock of the first controller comes from the crystal, divided by two, and is
/// turned on last.
pub proof fn law_pwm_clock(before: u32)
    ensures
        clock_ops().len() == 4,
        clock_ops()[0] == (RegOp::Write { addr: (RP1_CLOCKS_BASE + 0x78) as u64, value: 2 }),
        clock_ops()[1] == (RegOp::Write { addr: (RP1_CLOCKS_BASE + 0x7C) as u64, value: 0 }),
        clock_ops()[2].spec_addr() == RP1_CLOCKS_BASE + 0x74,
        clock_ops()[3].spec_addr() == RP1_CLOCKS_BASE + 0x74,
        clock_ops()[2].applied(before) & 0x3E7 == 0x41,
        clock_ops()[2].applied(before) & 0xFFFF_FC18 == before & 0xFFFF_FC18,
        clock_ops()[3].applied(before) == before | 0x800,
{
    let routed = (before & !(0x3E0u32 | 0x7)) | (0x40u32 | 0x1);
    assert({
        &&& routed & 0x3E7 == 0x41
        &&& routed & 0xFFFF_FC18 == before & 0xFFFF_FC18
        &&& (before & !0u32) | 0x800 == before | 0x800
    }) by (bit_vector)
        requires
            routed == (before & !(0x3E0u32 | 0x7)) | (0x40u32 | 0x1),
    ;
}

/// Law: each channel has its own sixteen bytes of registers from 14 on: control, period, and
/// duty behind it; the clock of the first controller has its registers from 74 on.
pub proof fn law_register_places(
    ch: u8,
    ctrl: u64,
    range: u64,
    duty: u64,
    clock: u64,
    div: (u64, u64),
)
    requires
        call_ensures(chan_ctrl, (ch,), ctrl),
        call_ensures(chan_range, (ch,), range),
        call_ensures(chan_duty, (ch,), duty),
        call_ensures(pwm0_clock_ctrl, (), clock),
        call_ensures(pwm0_clock_div, (), div),
    ensures
        ctrl == 0x14 + 16 * ch,
        range == ctrl + 4,
        duty == ctrl + 12,
        clock == RP1_CLOCKS_BASE + 0x74,
        div.0 == clock + 4,
        div.1 == clock + 8,
{
}

/// Law: the channels are numbered from 1 to 4.
pub proof fn law_channel_numbers(channel: u8)
    ensures
        channel_exists(channel) <==> channel == 1 || channel == 2 || channel == 3 || channel == 4,
{
}

} // verus!
