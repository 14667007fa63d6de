//! The hardware bench: a reflex that stops an output on a sensor edge, the
//! button of the emergency stop, the times that are reported of both, and a set
//! of requests that the policy monitor must contain.

use vstd::prelude::*;

use crate::actuation::{
    gpio_request, guard_gpio, guard_pwm, pwm_request, ActuationKind, ActuationRequest, AuditSource,
    Authority, ChannelId, EstopAction, MonitorRequest,
};
use crate::arch::mm::Platform;
use crate::platform::gpio::{
    pull_field, GpioFunction, GpioPull, Rp1Gpio, Rp1GpioInterruptState, NUM_PINS, PAD_PULL_MASK,
};
use crate::platform::mmio::RegOp;
use crate::platform::memory_map::{RP1_GPIO_BASE, RP1_PWM0_BASE};
use crate::platform::pwm::{clock_ops, enable_pwm0_clock, Rp1Pwm};
use crate::time::convert::counter_to_ns;

verus! {

/// The reflex fires on a rising edge of this pin.
pub const REFLEX_SENSOR_PIN: u8 = 23;

/// The button: closed it holds the pin high.
pub const ESTOP_BUTTON_PIN: u8 = 24;

pub const BENCH_PWM_FREQ_HZ: u32 = 10_000;

pub const BENCH_PWM_DUTY_PERCENT: u32 = 50;

pub const BENCH_PWM_CHIP: u8 = 0;

pub const BENCH_PWM_CHANNEL: u8 = 1;

/// The pin of that channel.
pub const BENCH_PWM_PIN: u8 = 12;

/// How the output is driven.
#[derive(Debug, Clone, Copy, PartialEq, Eq, Structural)]
pub enum ReflexOutput {
    /// A plain output, high when armed.
    Gpio,
    /// A PWM carrier.
    Pwm,
}

/// Whether a PWM channel is the one set aside for the bench.
pub fn is_bench_pwm_output(chip: u8, channel: u8) -> (is: bool)
    ensures
        is == (chip == BENCH_PWM_CHIP && channel == BENCH_PWM_CHANNEL),
{
    chip == BENCH_PWM_CHIP && channel == BENCH_PWM_CHANNEL
}

/// What the monitor is asked to arm the output.
pub open spec fn arm_request(output: ReflexOutput) -> Result<MonitorRequest, i64> {
    match output {
        ReflexOutput::Gpio => Ok::<MonitorRequest, i64>(
            gpio_request(BENCH_PWM_PIN, 1, Authority::Learned, AuditSource::LearnedBehavior),
        ),
        ReflexOutput::Pwm => pwm_request(
            Platform::Rpi5,
            BENCH_PWM_CHIP,
            BENCH_PWM_CHANNEL,
            BENCH_PWM_DUTY_PERCENT,
            true,
            Authority::Learned,
            AuditSource::LearnedBehavior,
        ),
    }
}

/// Ask the monitor to arm the output.
pub fn arm_reflex_output(output: ReflexOutput) -> (request: Result<MonitorRequest, i64>)
    ensures
        request == arm_request(output),
        request is Ok,
{
    match output {
        ReflexOutput::Gpio => Ok(guard_gpio(BENCH_PWM_PIN, 1)),
        ReflexOutput::Pwm => guard_pwm(
            Platform::Rpi5,
            BENCH_PWM_CHIP,
            BENCH_PWM_CHANNEL,
            BENCH_PWM_DUTY_PERCENT,
            true,
        ),
    }
}

// ---------------------------------------------------------------------------
// Times
// ---------------------------------------------------------------------------

/// Nanoseconds of a counter difference; without a frequency none.
pub open spec fn ns_of(delta: int, frequency: int) -> int {
    if frequency == 0 {
        0
    } else {
        delta * 1_000_000_000 / frequency
    }
}

/// The conversion stays within 64 bits.
pub open spec fn ns_fits(delta: int, frequency: int) -> bool {
    frequency == 0 || (ns_of(delta, frequency) <= u64::MAX && (delta % frequency) * 1_000_000_000
        <= u64::MAX)
}

/// Convert a counter difference to nanoseconds.
pub fn cycles_to_ns(delta: u64, frequency: u64) -> (ns: u64)
    requires
        ns_fits(delta as int, frequency as int),
    ensures
        ns == ns_of(delta as int, frequency as int),
{
    counter_to_ns(delta, frequency)
}

/// How much more the monitored write takes than the direct one.
pub fn added_ns(baseline_ns: u64, monitor_ns: u64) -> (added: i128)
    ensures
        added == monitor_ns - baseline_ns,
{
    monitor_ns as i128 - baseline_ns as i128
}

/// The difference of two readings of a counter that wraps.
pub open spec fn elapsed(now: u64, since: u64) -> int {
    if now >= since {
        now - since
    } else {
        now - since + 0x1_0000_0000_0000_0000
    }
}

/// What is reported of an edge.
#[derive(Debug, Clone, Copy, PartialEq, Eq, Structural)]
pub struct EdgeReport {
    pub sample_id: u64,
    /// What the monitor took.
    pub monitor_ns: u64,
    /// From the interrupt to the write.
    pub ns: u64,
}

/// What is reported of a press of the button.
#[derive(Debug, Clone, Copy, PartialEq, Eq, Structural)]
pub enum ButtonReport {
    /// The local actuators were safe after `ns`.
    Latency { sample_id: u64, ns: u64 },
    Failed { sample_id: u64 },
}

/// What is reported of an interrupt.
#[derive(Debug, Clone, Copy, PartialEq, Eq, Structural)]
pub struct ProbeReport {
    /// One of the first eight.
    pub diagnose: bool,
    /// The first that shows that the route works.
    pub proven: bool,
}

/// Which sources of the bench are behind an interrupt.
#[derive(Debug, Clone, Copy, PartialEq, Eq, Structural)]
pub enum BenchSource {
    /// Neither the sensor nor the button.
    Other,
    /// One of the two: the interrupt is stamped and gets a sample.
    Single,
    /// Both, which cannot share a stamp: it is reported, with their bits, and
    /// not stamped.
    Ambiguous { pending: u32 },
}

/// Tell the sources of an interrupt apart by the pins that are pending.
pub fn bench_source(pending: u32) -> (source: BenchSource)
    ensures
        ({
            let sensor = pending & 0x80_0000 != 0;
            let button = pending & 0x100_0000 != 0;
            source == if sensor && button {
                BenchSource::Ambiguous { pending: pending & 0x180_0000 }
            } else if sensor || button {
                BenchSource::Single
            } else {
                BenchSource::Other
            }
        }),
{
    assert(1u32 << 23u8 == 0x80_0000 && 1u32 << 24u8 == 0x100_0000 && 0x80_0000u32 | 0x100_0000u32
        == 0x180_0000) by (bit_vector);
    let sensor: u32 = 1u32 << REFLEX_SENSOR_PIN;
    let button: u32 = 1u32 << ESTOP_BUTTON_PIN;
    match (pending & sensor != 0, pending & button != 0) {
        (true, true) => BenchSource::Ambiguous { pending: pending & (sensor | button) },
        (false, false) => BenchSource::Other,
        _ => BenchSource::Single,
    }
}

/// What the bench keeps between interrupts.
#[derive(Debug, Clone, Copy, PartialEq, Eq, Structural)]
pub struct Bench {
    pub output: ReflexOutput,
    /// The output is armed again after the button was released.
    pub estop_rearm: bool,
    pub next_sample: u64,
    /// When the interrupt in flight began, and its sample; zero without one.
    pub irq_entry: u64,
    pub irq_sample: u64,
    /// The sample of the last press.
    pub estop_sample: u64,
    /// The sample after which the output is to be armed again.
    pub reflex_sample: u64,
    pub proven: bool,
    pub diagnosed: u64,
}

impl Bench {
    pub fn new(output: ReflexOutput, estop_rearm: bool) -> (bench: Self)
        ensures
            bench == (Bench {
                output,
                estop_rearm,
                next_sample: 1,
                irq_entry: 0,
                irq_sample: 0,
                estop_sample: 0,
                reflex_sample: 0,
                proven: false,
                diagnosed: 0,
            }),
    {
        Bench {
            output,
            estop_rearm,
            next_sample: 1,
            irq_entry: 0,
            irq_sample: 0,
            estop_sample: 0,
            reflex_sample: 0,
            proven: false,
            diagnosed: 0,
        }
    }

    /// The interrupt in flight: its sample and when it began.
    pub open spec fn in_flight(self) -> Option<(u64, u64)> {
        if self.irq_sample != 0 && self.irq_entry != 0 {
            Some((self.irq_sample, self.irq_entry))
        } else {
            None
        }
    }

    /// Without an interrupt in flight.
    pub open spec fn landed(self) -> Bench {
        Bench { irq_entry: 0, irq_sample: 0, ..self }
    }

    /// With the next sample in flight since `now`.
    pub open spec fn marked(self, now: u64) -> Bench {
        Bench {
            next_sample: if self.next_sample == u64::MAX {
                0
            } else {
                (self.next_sample + 1) as u64
            },
            irq_entry: now,
            irq_sample: self.next_sample,
            ..self
        }
    }

    /// A GPIO interrupt begins at `now`.
    pub fn mark_gpio_irq_entry(&mut self, now: u64)
        ensures
            *final(self) == old(self).marked(now),
    {
        let sample: u64 = self.next_sample;
        self.next_sample = sample.wrapping_add(1);
        self.irq_entry = now;
        self.irq_sample = sample;
    }

    /// A GPIO interrupt with these pins pending begins at `now`. It is stamped if
    /// it has one source of the bench.
    pub fn begin_gpio_irq(&mut self, pending: u32, now: u64) -> (source: BenchSource)
        ensures
            source is Single <==> (pending & 0x80_0000 != 0) != (pending & 0x100_0000 != 0),
            source is Ambiguous <==> pending & 0x80_0000 != 0 && pending & 0x100_0000 != 0,
            source is Ambiguous ==> source == (BenchSource::Ambiguous {
                pending: pending & 0x180_0000,
            }),
            if source is Single {
                *final(self) == old(self).marked(now)
            } else {
                *final(self) == *old(self)
            },
    {
        let source = bench_source(pending);
        match source {
            BenchSource::Single => {
                self.mark_gpio_irq_entry(now);
            },
            _ => {},
        }
        source
    }

    /// Take the interrupt in flight: it is used once.
    pub fn take_gpio_irq_entry(&mut self) -> (entry: Option<(u64, u64)>)
        ensures
            entry == old(self).in_flight(),
            *final(self) == old(self).landed(),
    {
        let sample: u64 = self.irq_sample;
        let entry: u64 = self.irq_entry;
        self.irq_sample = 0;
        self.irq_entry = 0;
        if sample != 0 && entry != 0 {
            Some((sample, entry))
        } else {
            None
        }
    }

    /// An output was written at `applied_at`. What is reported if an interrupt was
    /// in flight.
    pub fn report_edge_to_actuate(&mut self, monitor_cycles: u64, applied_at: u64, frequency: u64)
        -> (report: Option<EdgeReport>)
        requires
            old(self).in_flight() is Some ==> ns_fits(monitor_cycles as int, frequency as int)
                && ns_fits(elapsed(applied_at, old(self).irq_entry), frequency as int),
        ensures
            match old(self).in_flight() {
                None => report is None && *final(self) == old(self).landed(),
                Some((sample_id, start)) => {
                    &&& report == Some(
                        EdgeReport {
                            sample_id,
                            monitor_ns: ns_of(monitor_cycles as int, frequency as int) as u64,
                            ns: ns_of(elapsed(applied_at, start), frequency as int) as u64,
                        },
                    )
                    &&& *final(self) == (Bench { reflex_sample: sample_id, ..old(self).landed() })
                },
            },
    {
        match self.take_gpio_irq_entry() {
            None => None,
            Some((sample_id, start)) => {
                self.reflex_sample = sample_id;
                Some(
                    EdgeReport {
                        sample_id,
                        monitor_ns: cycles_to_ns(monitor_cycles, frequency),
                        ns: cycles_to_ns(applied_at.wrapping_sub(start), frequency),
                    },
                )
            },
        }
    }

    /// The sample after which the output is armed again, if there is one, and what
    /// the monitor is asked.
    pub fn rearm_reflex_after_sample(&mut self) -> (rearm: Option<
        (u64, Result<MonitorRequest, i64>),
    >)
        ensures
            rearm == if old(self).reflex_sample == 0 {
                None
            } else {
                Some((old(self).reflex_sample, arm_request(old(self).output)))
            },
            *final(self) == (Bench { reflex_sample: 0, ..*old(self) }),
    {
        let sample: u64 = self.reflex_sample;
        self.reflex_sample = 0;
        if sample == 0 {
            return None;
        }
        Some((sample, arm_reflex_output(self.output)))
    }

    /// The button changed: the interrupt in flight is taken, and the operator's
    /// command is given back.
    pub fn handle_estop_button(&mut self, pressed: bool) -> (result: (
        Option<(u64, u64)>,
        EstopAction,
    ))
        ensures
            result.0 == old(self).in_flight(),
            result.1 == if pressed {
                EstopAction::Trigger
            } else {
                EstopAction::Release
            },
            *final(self) == old(self).landed(),
    {
        let entry = self.take_gpio_irq_entry();
        let action = if pressed {
            EstopAction::Trigger
        } else {
            EstopAction::Release
        };
        (entry, action)
    }

    /// The stop was commanded. `code` is what came back, `applied_at` when the
    /// local actuators were safe.
    pub fn estop_triggered(
        &mut self,
        entry: Option<(u64, u64)>,
        code: i64,
        applied_at: Option<u64>,
        frequency: u64,
    ) -> (report: Option<ButtonReport>)
        requires
            match (entry, applied_at) {
                (Some((sample, start)), Some(at)) => code == 0 ==> ns_fits(
                    elapsed(at, start),
                    frequency as int,
                ),
                _ => true,
            },
        ensures
            match entry {
                None => report is None && *final(self) == *old(self),
                Some((sample_id, start)) => {
                    &&& *final(self) == (Bench { estop_sample: sample_id, ..*old(self) })
                    &&& report == Some(
                        match applied_at {
                            Some(at) => if code == 0 {
                                ButtonReport::Latency {
                                    sample_id,
                                    ns: ns_of(elapsed(at, start), frequency as int) as u64,
                                }
                            } else {
                                ButtonReport::Failed { sample_id }
                            },
                            None => ButtonReport::Failed { sample_id },
                        },
                    )
                },
            },
    {
        match entry {
            None => None,
            Some((sample_id, start)) => {
                self.estop_sample = sample_id;
                match applied_at {
                    Some(at) => if code == 0 {
                        Some(
                            ButtonReport::Latency {
                                sample_id,
                                ns: cycles_to_ns(at.wrapping_sub(start), frequency),
                            },
                        )
                    } else {
                        Some(ButtonReport::Failed { sample_id })
                    },
                    None => Some(ButtonReport::Failed { sample_id }),
                }
            },
        }
    }

    /// The release was commanded. The output is armed again only on a bench built
    /// for it, after a press that was seen, and if the release was granted.
    pub fn estop_released(&mut self, entry: Option<(u64, u64)>, code: i64) -> (rearm: Option<
        (u64, Result<MonitorRequest, i64>),
    >)
        ensures
            if old(self).estop_rearm && entry is Some && code == 0 {
                &&& rearm == Some((old(self).estop_sample, arm_request(old(self).output)))
                &&& *final(self) == (Bench { estop_sample: 0, ..*old(self) })
            } else {
                rearm is None && *final(self) == *old(self)
            },
    {
        if self.estop_rearm && entry.is_some() && code == 0 {
            let sample: u64 = self.estop_sample;
            self.estop_sample = 0;
            return Some((sample, arm_reflex_output(self.output)));
        }
        None
    }

    /// An interrupt was handled. The route is proven by the first that came from
    /// the sensor alone, was handled once and left nothing pending.
    pub fn report_gpio_irq_probe(
        &mut self,
        pending_before: u32,
        pending_after: u32,
        handled_events: u32,
    ) -> (report: ProbeReport)
        ensures
            ({
                let good = pending_before == 0x80_0000 && pending_after == 0 && handled_events == 1;
                &&& report == (ProbeReport {
                    diagnose: old(self).diagnosed < 8,
                    proven: good && !old(self).proven,
                })
                &&& *final(self) == (Bench {
                    diagnosed: if old(self).diagnosed == u64::MAX {
                        0
                    } else {
                        (old(self).diagnosed + 1) as u64
                    },
                    proven: old(self).proven || good,
                    ..*old(self)
                })
            }),
    {
        assert(1u32 << 23u8 == 0x80_0000) by (bit_vector);
        let expected: u32 = 1u32 << REFLEX_SENSOR_PIN;
        let diagnose = self.diagnosed < 8;
        self.diagnosed = self.diagnosed.wrapping_add(1);
        let mut proven = false;
        if pending_before == expected && pending_after == 0 && handled_events == 1 {
            proven = !self.proven;
            self.proven = true;
        }
        ProbeReport { diagnose, proven }
    }
}

/// Law: an interrupt is reported at most once: after it was taken none is in
/// flight.
pub proof fn law_entry_is_used_once(bench: Bench)
    ensures
        bench.landed().in_flight() is None,
{
}

// ---------------------------------------------------------------------------
// Containment
// ---------------------------------------------------------------------------

/// Requests of the set.
pub const CORPUS_SIZE: u32 = 1000;

pub const CORPUS_SEED: u64 = 0x5652_3033_4300_0001;

pub const CORPUS_MULTIPLIER: u64 = 6364136223846793005;

pub const CORPUS_INCREMENT: u64 = 1442695040888963407;

/// The next state of the generator.
pub open spec fn next_state(state: u64) -> u64 {
    ((state * CORPUS_MULTIPLIER + CORPUS_INCREMENT) % 0x1_0000_0000_0000_0000) as u64
}

/// The number drawn from a state.
pub open spec fn drawn(state: u64) -> u32 {
    (state / 0x2_0000_0000) as u32
}

/// The request of a number. The channels of the bench itself never occur.
pub open spec fn corpus_request(r: u32) -> ActuationRequest {
    let kind = if r as int % 2 == 0 {
        ActuationKind::PwmDuty
    } else {
        ActuationKind::GpioLevel
    };
    let half = r as int / 2;
    let channel = if r as int % 2 == 0 {
        if half % 5 == 0 {
            0u8
        } else if half % 5 == 2 {
            3u8
        } else if half % 5 == 3 {
            99u8
        } else {
            2u8
        }
    } else {
        let pin = (half % 40) as u8;
        if pin == BENCH_PWM_PIN || pin == REFLEX_SENSOR_PIN || pin == ESTOP_BUTTON_PIN {
            5u8
        } else {
            pin
        }
    };
    let value = if r as int % 4 == 0 {
        (r as int % 512) as u32
    } else if r as int % 4 == 1 {
        0u32
    } else if r as int % 4 == 2 {
        (r as int % 3) as u32
    } else {
        u32::MAX
    };
    ActuationRequest { ch: ChannelId { kind, chip: 0, channel }, value }
}

/// Derive a request.
pub fn derive_request(r: u32) -> (request: ActuationRequest)
    ensures
        request == corpus_request(r),
{
    let half: u32 = r / 2;
    let (kind, channel) = if r % 2 == 0 {
        let channel: u8 = match half % 5 {
            0 => 0,
            1 => 2,
            2 => 3,
            3 => 99,
            _ => 2,
        };
        (ActuationKind::PwmDuty, channel)
    } else {
        let pin: u8 = (half % 40) as u8;
        let channel: u8 = if pin == BENCH_PWM_PIN || pin == REFLEX_SENSOR_PIN || pin
            == ESTOP_BUTTON_PIN {
            5
        } else {
            pin
        };
        (ActuationKind::GpioLevel, channel)
    };
    let value: u32 = match r % 4 {
        0 => r % 512,
        1 => 0,
        2 => r % 3,
        _ => u32::MAX,
    };
    ActuationRequest { ch: ChannelId { kind, chip: 0, channel }, value }
}

/// Law: the set leaves the output of the bench, its sensor and its button alone.
pub proof fn law_corpus_spares_bench(r: u32)
    ensures
        ({
            let ch = corpus_request(r).ch;
            match ch.kind {
                ActuationKind::PwmDuty => ch.channel != BENCH_PWM_CHANNEL,
                ActuationKind::GpioLevel => ch.channel != BENCH_PWM_PIN && ch.channel
                    != REFLEX_SENSOR_PIN && ch.channel != ESTOP_BUTTON_PIN,
            }
        }),
{
}

/// How the monitor decided.
#[derive(Debug, Clone, Copy, PartialEq, Eq, Structural)]
pub enum DecisionKind {
    Allow,
    Clamp,
    Safe,
    Reject,
}

/// The values that a channel may take.
#[derive(Debug, Clone, Copy, PartialEq, Eq, Structural)]
pub struct Envelope {
    pub min: u32,
    pub max: u32,
}

/// A known channel stays within its envelope, an unknown one gets zero.
pub open spec fn is_contained(envelope: Option<Envelope>, applied: u32) -> bool {
    match envelope {
        Some(envelope) => envelope.min <= applied <= envelope.max,
        None => applied == 0,
    }
}

/// What the monitor made of a request.
#[derive(Debug, Clone, Copy, PartialEq, Eq, Structural)]
pub struct Verdict {
    pub kind: DecisionKind,
    pub applied: u32,
    pub code: i64,
    pub envelope: Option<Envelope>,
}

/// A run through the set.
#[derive(Debug, Clone, Copy, PartialEq, Eq, Structural)]
pub struct Corpus {
    pub state: u64,
    /// Requests drawn so far.
    pub drawn: u32,
    /// Verdicts noted so far.
    pub noted: u32,
    pub escapes: u32,
    pub safed: u32,
    pub clamps: u32,
}

pub open spec fn bump_if(count: u32, more: bool) -> u32 {
    if more {
        (count + 1) as u32
    } else {
        count
    }
}

impl Corpus {
    /// Nothing is counted that was not drawn.
    pub open spec fn wf(self) -> bool {
        &&& self.noted <= self.drawn <= CORPUS_SIZE
        &&& self.escapes <= self.noted
        &&& self.safed <= self.noted
        &&& self.clamps <= self.noted
    }

    pub fn new() -> (corpus: Self)
        ensures
            corpus.wf(),
            corpus == (Corpus {
                state: CORPUS_SEED,
                drawn: 0,
                noted: 0,
                escapes: 0,
                safed: 0,
                clamps: 0,
            }),
    {
        Corpus { state: CORPUS_SEED, drawn: 0, noted: 0, escapes: 0, safed: 0, clamps: 0 }
    }

    /// The next request, until all were drawn.
    pub fn next_request(&mut self) -> (request: Option<ActuationRequest>)
        requires
            old(self).wf(),
        ensures
            final(self).wf(),
            if old(self).drawn == CORPUS_SIZE {
                request is None && *final(self) == *old(self)
            } else {
                let state = next_state(old(self).state);
                &&& request == Some(corpus_request(drawn(state)))
                &&& *final(self) == (Corpus {
                    state,
                    drawn: (old(self).drawn + 1) as u32,
                    ..*old(self)
                })
            },
    {
        if self.drawn == CORPUS_SIZE {
            return None;
        }
        let product: u64 = self.state.wrapping_mul(CORPUS_MULTIPLIER);
        let state: u64 = product.wrapping_add(CORPUS_INCREMENT);
        proof {
            let p = self.state * CORPUS_MULTIPLIER;
            let m = 0x1_0000_0000_0000_0000int;
            vstd::arithmetic::div_mod::lemma_fundamental_div_mod(p, m);
            vstd::arithmetic::div_mod::lemma_add_mod_noop(p, CORPUS_INCREMENT as int, m);
        }
        self.state = state;
        self.drawn = self.drawn + 1;
        Some(derive_request((state / 0x2_0000_0000) as u32))
    }

    /// With a verdict counted.
    pub open spec fn with(self, verdict: Verdict) -> Corpus {
        Corpus {
            noted: (self.noted + 1) as u32,
            escapes: bump_if(self.escapes, !is_contained(verdict.envelope, verdict.applied)),
            safed: bump_if(self.safed, verdict.code < 0),
            clamps: bump_if(self.clamps, verdict.kind == DecisionKind::Clamp),
            ..self
        }
    }

    /// Count what the monitor made of the request that was drawn.
    pub fn note(&mut self, verdict: Verdict)
        requires
            old(self).wf(),
            old(self).noted < old(self).drawn,
        ensures
            final(self).wf(),
            *final(self) == old(self).with(verdict),
    {
        let contained = match verdict.envelope {
            Some(envelope) => envelope.min <= verdict.applied && verdict.applied <= envelope.max,
            None => verdict.applied == 0,
        };
        self.noted = self.noted + 1;
        if !contained {
            self.escapes = self.escapes + 1;
        }
        if verdict.code < 0 {
            self.safed = self.safed + 1;
        }
        if verdict.kind == DecisionKind::Clamp {
            self.clamps = self.clamps + 1;
        }
    }
}

/// Law: no escape is counted exactly if every verdict so far was contained: a
/// contained one leaves the count, another raises it.
pub proof fn law_escape_is_counted(corpus: Corpus, verdict: Verdict)
    requires
        corpus.wf(),
        corpus.noted < corpus.drawn,
    ensures
        corpus.with(verdict).escapes == corpus.escapes <==> is_contained(
            verdict.envelope,
            verdict.applied,
        ),
        corpus.with(verdict).escapes >= corpus.escapes,
{
}

// ---------------------------------------------------------------------------
// Set-up
// ---------------------------------------------------------------------------

pub open spec fn bench_gpio() -> Rp1Gpio {
    Rp1Gpio { base: RP1_GPIO_BASE }
}

pub open spec fn bench_pwm() -> Rp1Pwm {
    Rp1Pwm { base: RP1_PWM0_BASE }
}

/// The interrupts of the first `n` pins off.
pub open spec fn quiet_ops(n: nat) -> Seq<RegOp>
    decreases n,
{
    if n == 0 {
        Seq::empty()
    } else {
        quiet_ops((n - 1) as nat) + bench_gpio().irq_off_ops((n - 1) as u8)
    }
}

/// Append accesses.
fn extend(ops: &mut Vec<RegOp>, more: Vec<RegOp>)
    ensures
        final(ops)@ == old(ops)@ + more@,
{
    let ghost before = ops@;
    let mut i: usize = 0;
    assert(ops@ =~= before + more@.subrange(0, 0));
    while i < more.len()
        invariant
            i <= more@.len(),
            ops@ == before + more@.subrange(0, i as int),
        decreases more@.len() - i,
    {
        ops.push(more[i]);
        i = i + 1;
        assert(ops@ =~= before + more@.subrange(0, i as int));
    }
    assert(more@.subrange(0, i as int) =~= more@);
}

/// Turn the interrupts of all pins off, so that nothing left from before a
/// restart comes in while the route is built.
pub fn quiesce() -> (ops: Vec<RegOp>)
    ensures
        ops@ == quiet_ops(NUM_PINS as nat),
{
    let gpio = Rp1Gpio::new();
    let mut ops: Vec<RegOp> = Vec::new();
    let mut pin: u8 = 0;
    while pin < NUM_PINS
        invariant
            pin <= NUM_PINS,
            gpio == bench_gpio(),
            gpio.wf(),
            ops@ == quiet_ops(pin as nat),
        decreases NUM_PINS - pin,
    {
        extend(&mut ops, gpio.disable_interrupt(pin));
        pin = pin + 1;
    }
    ops
}

/// The carrier at zero duty, and the pin handed to it.
pub open spec fn carrier_ops() -> Seq<RegOp> {
    let pwm = bench_pwm();
    clock_ops() + seq![pwm.modify_global(1, crate::platform::pwm::SET_UPDATE)] + pwm.frequency_ops(
        BENCH_PWM_CHANNEL,
        BENCH_PWM_FREQ_HZ,
    ) + pwm.duty_ops(BENCH_PWM_CHANNEL, 0, 0) + pwm.enable_ops(BENCH_PWM_CHANNEL)
        + bench_gpio().peripheral_ops(BENCH_PWM_PIN, GpioFunction::Alt0)
}

/// Sensor and button as inputs, pulled down.
pub open spec fn input_pin_ops() -> Seq<RegOp> {
    let gpio = bench_gpio();
    gpio.input_ops(REFLEX_SENSOR_PIN) + gpio.input_ops(ESTOP_BUTTON_PIN) + seq![
        gpio.on_pad(REFLEX_SENSOR_PIN, PAD_PULL_MASK, pull_field(GpioPull::Down)),
        gpio.on_pad(ESTOP_BUTTON_PIN, PAD_PULL_MASK, pull_field(GpioPull::Down)),
    ]
}

/// Make the output a low pin.
pub fn lower() -> (ops: Vec<RegOp>)
    ensures
        ops@ == bench_gpio().output_ops(BENCH_PWM_PIN, false),
{
    Rp1Gpio::new().configure_output(BENCH_PWM_PIN, false)
}

/// Make the pins what they are to be, once the output is low. A carrier starts at
/// zero duty.
pub fn prepare(output: ReflexOutput) -> (ops: Vec<RegOp>)
    ensures
        ops@ == (match output {
            ReflexOutput::Gpio => Seq::empty(),
            ReflexOutput::Pwm => carrier_ops(),
        }) + input_pin_ops(),
{
    let gpio = Rp1Gpio::new();
    let mut ops: Vec<RegOp> = Vec::new();
    match output {
        ReflexOutput::Gpio => {
            assert(ops@ =~= Seq::empty());
        },
        ReflexOutput::Pwm => {
            let pwm = Rp1Pwm::pwm0();
            extend(&mut ops, enable_pwm0_clock());
            ops.push(pwm.disable(BENCH_PWM_CHANNEL));
            extend(&mut ops, pwm.set_frequency(BENCH_PWM_CHANNEL, BENCH_PWM_FREQ_HZ));
            extend(&mut ops, pwm.set_duty_cycle(BENCH_PWM_CHANNEL, 0, 0));
            extend(&mut ops, pwm.enable(BENCH_PWM_CHANNEL));
            extend(&mut ops, gpio.configure_peripheral_output(BENCH_PWM_PIN, GpioFunction::Alt0));
            assert(ops@ =~= carrier_ops());
        },
    }
    let ghost driven = ops@;
    extend(&mut ops, gpio.configure_input(REFLEX_SENSOR_PIN));
    extend(&mut ops, gpio.configure_input(ESTOP_BUTTON_PIN));
    ops.push(gpio.set_pull(REFLEX_SENSOR_PIN, GpioPull::Down));
    ops.push(gpio.set_pull(ESTOP_BUTTON_PIN, GpioPull::Down));
    assert(ops@ =~= driven + input_pin_ops());
    ops
}

/// Turn the interrupts on: the rising edge of the sensor, both edges of the
/// button.
pub fn enable_irqs() -> (ops: Vec<RegOp>)
    ensures
        ops@ == bench_gpio().irq_on_ops(REFLEX_SENSOR_PIN, true, false) + bench_gpio().irq_on_ops(
            ESTOP_BUTTON_PIN,
            true,
            true,
        ),
{
    let gpio = Rp1Gpio::new();
    let mut ops = gpio.enable_interrupt(REFLEX_SENSOR_PIN, true, false);
    extend(&mut ops, gpio.enable_interrupt(ESTOP_BUTTON_PIN, true, true));
    ops
}

/// What the sensor's registers must read: its edge enabled, its input on, both
/// pins passed on.
pub open spec fn readback_good(sensor: Rp1GpioInterruptState) -> bool {
    &&& sensor.control & 0x20_0000 != 0
    &&& sensor.pad & 0x40 != 0
    &&& sensor.pcie_enable & 0x180_0000 == 0x180_0000
}

/// Why the bench is not ready.
#[derive(Debug, Clone, Copy, PartialEq, Eq, Structural)]
pub enum BenchFailure {
    Route,
    Readback,
    ManagerMissing,
    Load,
    Attach,
}

/// What has to be done next.
#[allow(inconsistent_fields)]
#[derive(Debug, Clone, Copy, PartialEq, Eq, Structural)]
pub enum BenchStep {
    /// Perform [`quiesce`].
    Quiesce,
    /// Set up the interrupt route.
    Route,
    /// Run the [`Corpus`] through a monitor of its own.
    Contain,
    /// Perform [`lower`].
    Lower,
    /// Time direct and monitored writes of the low output.
    Pair,
    /// Perform [`prepare`].
    Prepare,
    /// Read the level of the button.
    ReadButton,
    /// Handle the button as it stands.
    Button { pressed: bool },
    /// Perform [`enable_irqs`].
    EnableIrqs,
    /// Read the sensor's registers back.
    Readback { pressed: bool },
    /// Load the reflex.
    Load { pressed: bool },
    /// Attach it to the sensor's rising edge.
    Attach { pressed: bool, program: u32 },
    /// Arm the output by way of the monitor.
    Arm { pressed: bool, program: u32 },
    Ready { pressed: bool, program: u32, armed: i64 },
    Failed(BenchFailure),
}

/// What was done.
#[derive(Debug, Clone, Copy, PartialEq, Eq, Structural)]
pub enum BenchEvent {
    Done,
    Route { complete: bool },
    Button { high: bool },
    Readback { sensor: Rp1GpioInterruptState },
    ManagerMissing,
    Loaded { program: Option<u32> },
    Attached { accepted: bool },
    Armed { code: i64 },
}

/// Where the set-up stands.
#[derive(Debug, Clone, Copy, PartialEq, Eq, Structural)]
pub struct BenchInit {
    pub step: BenchStep,
    /// Direct and monitored writes are timed on the way.
    pub paired: bool,
    /// The button was pressed when the set-up looked.
    pub pressed: bool,
}

impl BenchInit {
    /// The step after an event. An event that was not asked for changes nothing.
    pub open spec fn after(self, event: BenchEvent) -> BenchInit {
        match (self.step, event) {
            (BenchStep::Quiesce, BenchEvent::Done) => self.at(BenchStep::Route),
            (BenchStep::Route, BenchEvent::Route { complete }) => self.at(
                if complete {
                    BenchStep::Contain
                } else {
                    BenchStep::Failed(BenchFailure::Route)
                },
            ),
            (BenchStep::Contain, BenchEvent::Done) => self.at(BenchStep::Lower),
            (BenchStep::Lower, BenchEvent::Done) => self.at(
                if self.paired {
                    BenchStep::Pair
                } else {
                    BenchStep::Prepare
                },
            ),
            (BenchStep::Pair, BenchEvent::Done) => self.at(BenchStep::Prepare),
            (BenchStep::Prepare, BenchEvent::Done) => self.at(BenchStep::ReadButton),
            (BenchStep::ReadButton, BenchEvent::Button { high }) => BenchInit {
                step: BenchStep::Button { pressed: !high },
                pressed: !high,
                ..self
            },
            (BenchStep::Button { pressed }, BenchEvent::Done) => self.at(BenchStep::EnableIrqs),
            (BenchStep::EnableIrqs, BenchEvent::Done) => self.at(
                BenchStep::Readback { pressed: self.pressed },
            ),
            (BenchStep::Readback { pressed }, BenchEvent::Readback { sensor }) => self.at(
                if readback_good(sensor) {
                    BenchStep::Load { pressed }
                } else {
                    BenchStep::Failed(BenchFailure::Readback)
                },
            ),
            (BenchStep::Load { pressed }, BenchEvent::ManagerMissing) => self.at(
                BenchStep::Failed(BenchFailure::ManagerMissing),
            ),
            (BenchStep::Load { pressed }, BenchEvent::Loaded { program }) => self.at(
                match program {
                    Some(program) => BenchStep::Attach { pressed, program },
                    None => BenchStep::Failed(BenchFailure::Load),
                },
            ),
            (BenchStep::Attach { pressed, program }, BenchEvent::Attached { accepted }) => self.at(
                if accepted {
                    BenchStep::Arm { pressed, program }
                } else {
                    BenchStep::Failed(BenchFailure::Attach)
                },
            ),
            (BenchStep::Arm { pressed, program }, BenchEvent::Armed { code }) => self.at(
                BenchStep::Ready { pressed, program, armed: code },
            ),
            _ => self,
        }
    }

    pub open spec fn at(self, step: BenchStep) -> BenchInit {
        BenchInit { step, ..self }
    }

    /// `paired` asks for direct and monitored writes to be timed.
    pub fn new(paired: bool) -> (init: Self)
        ensures
            init == (BenchInit { step: BenchStep::Quiesce, paired, pressed: false }),
    {
        BenchInit { step: BenchStep::Quiesce, paired, pressed: false }
    }

    /// Report what was done: what comes next.
    pub fn on(&mut self, event: BenchEvent) -> (next: BenchStep)
        ensures
            *final(self) == old(self).after(event),
            next == final(self).step,
    {
        match (self.step, event) {
            (BenchStep::Quiesce, BenchEvent::Done) => {
                self.step = BenchStep::Route;
            },
            (BenchStep::Route, BenchEvent::Route { complete }) => {
                self.step = if complete {
                    BenchStep::Contain
                } else {
                    BenchStep::Failed(BenchFailure::Route)
                };
            },
            (BenchStep::Contain, BenchEvent::Done) => {
                self.step = BenchStep::Lower;
            },
            (BenchStep::Lower, BenchEvent::Done) => {
                self.step = if self.paired {
                    BenchStep::Pair
                } else {
                    BenchStep::Prepare
                };
            },
            (BenchStep::Pair, BenchEvent::Done) => {
                self.step = BenchStep::Prepare;
            },
            (BenchStep::Prepare, BenchEvent::Done) => {
                self.step = BenchStep::ReadButton;
            },
            (BenchStep::ReadButton, BenchEvent::Button { high }) => {
                self.step = BenchStep::Button { pressed: !high };
                self.pressed = !high;
            },
            (BenchStep::Button { .. }, BenchEvent::Done) => {
                self.step = BenchStep::EnableIrqs;
            },
            (BenchStep::EnableIrqs, BenchEvent::Done) => {
                self.step = BenchStep::Readback { pressed: self.pressed };
            },
            (BenchStep::Readback { pressed }, BenchEvent::Readback { sensor }) => {
                let good = sensor.control & 0x20_0000 != 0 && sensor.pad & 0x40 != 0
                    && sensor.pcie_enable & 0x180_0000 == 0x180_0000;
                self.step = if good {
                    BenchStep::Load { pressed }
                } else {
                    BenchStep::Failed(BenchFailure::Readback)
                };
            },
            (BenchStep::Load { .. }, BenchEvent::ManagerMissing) => {
                self.step = BenchStep::Failed(BenchFailure::ManagerMissing);
            },
            (BenchStep::Load { pressed }, BenchEvent::Loaded { program }) => {
                self.step = match program {
                    Some(program) => BenchStep::Attach { pressed, program },
                    None => BenchStep::Failed(BenchFailure::Load),
                };
            },
            (BenchStep::Attach { pressed, program }, BenchEvent::Attached { accepted }) => {
                self.step = if accepted {
                    BenchStep::Arm { pressed, program }
                } else {
                    BenchStep::Failed(BenchFailure::Attach)
                };
            },
            (BenchStep::Arm { pressed, program }, BenchEvent::Armed { code }) => {
                self.step = BenchStep::Ready { pressed, program, armed: code };
            },
            _ => {},
        }
        self.step
    }
}

/// Law: the carrier is prepared only after the output was put low, and exactly if
/// it is asked for, the writes are timed in between.
pub proof fn law_low_before_carrier(init: BenchInit, event: BenchEvent)
    ensures
        init.after(event).paired == init.paired,
        init.after(event).step is Prepare && !(init.step is Prepare) ==> {
            &&& event == BenchEvent::Done
            &&& init.step is Pair || (init.step is Lower && !init.paired)
        },
        init.after(event).step is Pair && !(init.step is Pair) ==> {
            &&& event == BenchEvent::Done
            &&& init.step is Lower && init.paired
        },
{
}

/// Law: the output is armed only after the reflex that stops it was attached, and
/// that only after the sensor's interrupt was seen to be on.
pub proof fn law_reflex_before_arm(init: BenchInit, event: BenchEvent)
    ensures
        init.after(event).step is Arm && !(init.step is Arm) ==> init.step is Attach && event
            == (BenchEvent::Attached { accepted: true }),
        init.after(event).step is Load && !(init.step is Load) ==> (match event {
            BenchEvent::Readback { sensor } => readback_good(sensor),
            _ => false,
        }),
        init.after(event).step is Attach && !(init.step is Attach) ==> init.step is Load,
{
}

/// Law: times on the bench are whole nanoseconds, rounded down, of a counter that wraps.
pub proof fn law_bench_times(delta: int, frequency: int, now: u64, since: u64)
    requires
        delta >= 0,
        frequency > 0,
    ensures
        ns_of(delta, frequency) * frequency <= delta * 1_000_000_000 < (ns_of(delta, frequency) + 1)
            * frequency,
        ns_of(delta, 0) == 0,
        elapsed(now, since) == (now - since) % 0x1_0000_0000_0000_0000,
{
    let x = delta * 1_000_000_000;
    let q = x / frequency;
    vstd::arithmetic::div_mod::lemma_fundamental_div_mod(x, frequency);
    vstd::arithmetic::div_mod::lemma_mod_bound(x, frequency);
    assert(q * frequency <= x < (q + 1) * frequency) by (nonlinear_arith)
        requires
            x == frequency * q + x % frequency,
            0 <= x % frequency < frequency,
    ;
}

/// Law: an interrupt is stamped with the next sample, which counts up; it is in flight until
/// it is taken.
pub proof fn law_interrupt_in_flight(bench: Bench, now: u64)
    requires
        now != 0,
        bench.next_sample != 0,
    ensures
        bench.marked(now).in_flight() == Some((bench.next_sample, now)),
        bench.marked(now).next_sample as int == (bench.next_sample + 1) % 0x1_0000_0000_0000_0000,
        bench.marked(now).landed().in_flight() is None,
        bench.landed().next_sample == bench.next_sample,
        bench.landed().estop_sample == bench.estop_sample,
        bench.landed().reflex_sample == bench.reflex_sample,
{
}

/// Law: the output is armed by a high level of pin 12, or by half duty on channel 1 of chip 0,
/// with learned authority.
pub proof fn law_arming(output: ReflexOutput)
    ensures
        match arm_request(output) {
            Ok(asked) => {
                &&& asked.authority is Learned
                &&& asked.source is LearnedBehavior
                &&& asked.request.ch.chip == 0
                &&& output is Gpio ==> asked.request.ch.kind is GpioLevel
                    && asked.request.ch.channel == 12 && asked.request.value == 1
                &&& output is Pwm ==> asked.request.ch.kind is PwmDuty && asked.request.ch.channel
                    == 1 && asked.request.value == 50
            },
            Err(_) => false,
        },
{
}

/// Law: the requests of the set: pins below 40 and four PWM channels, with levels that are
/// plain, zero, small or far too large.
pub proof fn law_corpus_requests(r: u32)
    ensures
        ({
            let request = corpus_request(r);
            let n = r as int;
            &&& request.ch.chip == 0
            &&& request.ch.kind is PwmDuty <==> n % 2 == 0
            &&& n % 2 == 0 ==> request.ch.channel == 0 || request.ch.channel == 2
                || request.ch.channel == 3 || request.ch.channel == 99
            &&& n % 2 == 1 ==> request.ch.channel == n / 2 % 40 || (request.ch.channel == 5 && (n
                / 2 % 40 == 12 || n / 2 % 40 == 23 || n / 2 % 40 == 24))
            &&& n % 4 == 0 ==> request.value == n % 512
            &&& n % 4 == 1 ==> request.value == 0
            &&& n % 4 == 2 ==> request.value == n % 3
            &&& n % 4 == 3 ==> request.value == 0xFFFF_FFFF
        }),
{
}

/// Law: a request stays within bounds if its channel is known and the value within them, or
/// the channel is unknown and the value zero. Each verdict is counted once, and as safe or
/// limited exactly if it was.
pub proof fn law_containment(corpus: Corpus, verdict: Verdict)
    requires
        corpus.wf(),
        corpus.noted < corpus.drawn,
    ensures
        ({
            let after = corpus.with(verdict);
            let inside = match verdict.envelope {
                Some(e) => e.min <= verdict.applied && verdict.applied <= e.max,
                None => verdict.applied == 0,
            };
            &&& after.noted == corpus.noted + 1
            &&& after.escapes == corpus.escapes + if inside {
                0int
            } else {
                1
            }
            &&& after.safed == corpus.safed + if verdict.code < 0 {
                1int
            } else {
                0
            }
            &&& after.clamps == corpus.clamps + if verdict.kind is Clamp {
                1int
            } else {
                0
            }
            &&& after.drawn == corpus.drawn && after.state == corpus.state
        }),
{
}

/// Law: the set-up goes through its steps in order, and the button counts as pressed exactly
/// if its pin is low.
pub proof fn law_bench_set_up(init: BenchInit, high: bool, sensor: Rp1GpioInterruptState)
    ensures
        init.step is Quiesce ==> init.after(BenchEvent::Done).step is Route,
        init.step is Route ==> init.after(BenchEvent::Route { complete: true }).step is Contain
            && init.after(BenchEvent::Route { complete: false }).step == BenchStep::Failed(
            BenchFailure::Route,
        ),
        init.step is Contain ==> init.after(BenchEvent::Done).step is Lower,
        init.step is Prepare ==> init.after(BenchEvent::Done).step is ReadButton,
        init.step is ReadButton ==> {
            let after = init.after(BenchEvent::Button { high });
            after.step == (BenchStep::Button { pressed: !high }) && after.pressed == !high
        },
        init.step is Button ==> init.after(BenchEvent::Done).step is EnableIrqs,
        init.step is EnableIrqs ==> init.after(BenchEvent::Done).step == (BenchStep::Readback {
            pressed: init.pressed,
        }),
        init.step is Readback ==> {
            let good = sensor.control & 0x20_0000 != 0 && sensor.pad & 0x40 != 0
                && sensor.pcie_enable & 0x180_0000 == 0x180_0000;
            let after = init.after(BenchEvent::Readback { sensor }).step;
            &&& good <==> after is Load
            &&& !good <==> after == BenchStep::Failed(BenchFailure::Readback)
        },
        init.step is Load ==> init.after(BenchEvent::ManagerMissing).step == BenchStep::Failed(
            BenchFailure::ManagerMissing,
        ) && init.after(BenchEvent::Loaded { program: None }).step == BenchStep::Failed(
            BenchFailure::Load,
        ),
        init.step is Attach ==> init.after(BenchEvent::Attached { accepted: true }).step is Arm
            && init.after(BenchEvent::Attached { accepted: false }).step == BenchStep::Failed(
            BenchFailure::Attach,
        ),
{
}

/// Law: what the set-up touches: every pin's interrupt is turned off, in order of the pins; the
/// output is pin 12, driven by channel 1 of the first controller at 10 kHz with no duty; sensor
/// and button are the pulled-down inputs 23 and 24.
pub proof fn law_bench_wiring(n: nat)
    requires
        0 < n <= 28,
    ensures
        quiet_ops(0) == Seq::<RegOp>::empty(),
        quiet_ops(n) == quiet_ops((n - 1) as nat) + bench_gpio().irq_off_ops((n - 1) as u8),
        ({
            let pwm = bench_pwm();
            let gpio = bench_gpio();
            &&& gpio.base == RP1_GPIO_BASE
            &&& pwm.base == RP1_PWM0_BASE
            &&& carrier_ops() == clock_ops() + seq![
                pwm.modify_global(1, 0x8000_0000),
            ] + pwm.frequency_ops(1, 10_000) + pwm.duty_ops(1, 0, 0) + pwm.enable_ops(1)
                + gpio.peripheral_ops(12, GpioFunction::Alt0)
            &&& input_pin_ops() == gpio.input_ops(23) + gpio.input_ops(24) + seq![
                gpio.on_pad(23, 0xC, pull_field(GpioPull::Down)),
                gpio.on_pad(24, 0xC, pull_field(GpioPull::Down)),
            ]
        }),
{
}

/// Law: the output is channel 1 of chip 0, and what the monitor adds is the difference of its
/// time to that without it.
pub proof fn law_bench_output(chip: u8, channel: u8, is: bool, without: u64, with: u64, added: i128)
    requires
        call_ensures(is_bench_pwm_output, (chip, channel), is),
        call_ensures(added_ns, (without, with), added),
    ensures
        is <==> chip == 0 && channel == 1,
        without + added == with,
{
}

/// Law: the set is drawn by the generator with multiplier 6364136223846793005 and increment
/// 1442695040888963407, modulo 2 to the 64, whose upper 31 bits are used.
pub proof fn law_corpus_generator(state: u64)
    ensures
        (next_state(state) - state * 6364136223846793005 - 1442695040888963407)
            % 0x1_0000_0000_0000_0000 == 0,
        drawn(state) * 0x2_0000_0000 <= state < (drawn(state) + 1) * 0x2_0000_0000,
        CORPUS_SIZE == 1000,
        CORPUS_SEED == 0x5652_3033_4300_0001,
{
    let x = state * CORPUS_MULTIPLIER + CORPUS_INCREMENT;
    let m = 0x1_0000_0000_0000_0000int;
    vstd::arithmetic::div_mod::lemma_fundamental_div_mod(x, m);
    vstd::arithmetic::div_mod::lemma_mod_bound(x, m);
}

/// Law: the rest of the set-up: direct writes are timed only if asked for, what was found of
/// the button and the program is kept to the end, and a wrong event changes nothing.
pub proof fn law_bench_set_up_ends(
    init: BenchInit,
    pressed: bool,
    program: u32,
    code: i64,
)
    ensures
        init.step is Lower ==> init.after(BenchEvent::Done).step == if init.paired {
            BenchStep::Pair
        } else {
            BenchStep::Prepare
        },
        init.step is Pair ==> init.after(BenchEvent::Done).step is Prepare,
        init.step == (BenchStep::Load { pressed }) ==> init.after(
            BenchEvent::Loaded { program: Some(program) },
        ).step == (BenchStep::Attach { pressed, program }),
        init.step == (BenchStep::Attach { pressed, program }) ==> init.after(
            BenchEvent::Attached { accepted: true },
        ).step == (BenchStep::Arm { pressed, program }),
        init.step == (BenchStep::Arm { pressed, program }) ==> init.after(
            BenchEvent::Armed { code },
        ).step == (BenchStep::Ready { pressed, program, armed: code }),
        init.step is Failed || init.step is Ready ==> init.after(BenchEvent::Done) == init,
        init.step is Route || init.step is Load || init.step is Attach ==> init.after(
            BenchEvent::Done,
        ) == init,
{
}

} // verus!
