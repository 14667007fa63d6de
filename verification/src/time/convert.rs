//! Conversions between hardware ticks, POSIX times and nanoseconds.

use vstd::arithmetic::div_mod::{lemma_div_is_ordered, lemma_fundamental_div_mod};
use vstd::arithmetic::mul::lemma_mul_inequality;
use vstd::prelude::*;

verus! {

/// Femtoseconds in one nanosecond.
pub const FEMTOSECONDS_PER_NANOSECOND: u128 = 1_000_000;

/// Nanoseconds in one second.
pub const NANOSECONDS_PER_SECOND: u64 = 1_000_000_000;

/// `value`, or the largest 64-bit number if that is less.
pub open spec fn saturated(value: int) -> u64 {
    if value > u64::MAX {
        u64::MAX
    } else {
        value as u64
    }
}

/// Nanoseconds of `ticks` periods given in femtoseconds.
pub open spec fn femtosecond_ticks(ticks: u64, period_femtoseconds: u32) -> u64 {
    saturated(ticks * period_femtoseconds / (FEMTOSECONDS_PER_NANOSECOND as int))
}

/// Nanoseconds of `ticks` of a clock with frequency `frequency_hz`.
pub open spec fn frequency_ticks(ticks: u64, frequency_hz: u64) -> u64 {
    saturated(ticks * NANOSECONDS_PER_SECOND / (frequency_hz as int))
}

proof fn lemma_product_bound(a: u64, b: u64)
    ensures
        0 <= a * b <= u64::MAX * u64::MAX,
        a * b <= u128::MAX,
{
    assert(0 <= a * b <= u64::MAX * u64::MAX) by (nonlinear_arith)
        requires
            0 <= a <= u64::MAX,
            0 <= b <= u64::MAX,
    ;
}

/// Convert a counter whose period is given in femtoseconds to nanoseconds,
/// rounding down and saturating.
#[must_use]
pub fn femtosecond_ticks_to_nanoseconds(ticks: u64, period_femtoseconds: u32) -> (ns: u64)
    ensures
        ns == femtosecond_ticks(ticks, period_femtoseconds),
{
    proof {
        lemma_product_bound(ticks, period_femtoseconds as u64);
    }
    saturating_u128_to_u64(
        (ticks as u128 * period_femtoseconds as u128) / FEMTOSECONDS_PER_NANOSECOND,
    )
}

/// Convert a counter of fixed frequency to nanoseconds, rounding down and
/// saturating. `None` for a zero frequency.
#[must_use]
pub fn frequency_ticks_to_nanoseconds(ticks: u64, frequency_hz: u64) -> (ns: Option<u64>)
    ensures
        ns == if frequency_hz == 0 {
            None
        } else {
            Some(frequency_ticks(ticks, frequency_hz))
        },
{
    if frequency_hz == 0 {
        return None;
    }
    proof {
        lemma_product_bound(ticks, NANOSECONDS_PER_SECOND);
    }
    Some(
        saturating_u128_to_u64(
            (ticks as u128 * NANOSECONDS_PER_SECOND as u128) / frequency_hz as u128,
        ),
    )
}

/// The duration of a POSIX `(seconds, nanoseconds)` pair. `None` for a negative
/// part, for nanoseconds of a second or more, and if it does not fit.
#[must_use]
pub fn timespec_to_duration_nanoseconds(seconds: i64, nanoseconds: i64) -> (ns: Option<u64>)
    ensures
        ns == if seconds < 0 || nanoseconds < 0 || nanoseconds >= NANOSECONDS_PER_SECOND
            || seconds * NANOSECONDS_PER_SECOND + nanoseconds > u64::MAX {
            None
        } else {
            Some((seconds * NANOSECONDS_PER_SECOND + nanoseconds) as u64)
        },
{
    if seconds < 0 || nanoseconds < 0 || nanoseconds >= 1_000_000_000 {
        return None;
    }
    match (seconds as u64).checked_mul(NANOSECONDS_PER_SECOND) {
        Some(value) => value.checked_add(nanoseconds as u64),
        None => None,
    }
}

/// Nanoseconds of a counter reading, in 64-bit arithmetic. A zero frequency
/// gives zero. The result must fit, and so must the ticks beyond the last whole
/// second times the nanoseconds of a second.
#[must_use]
pub fn counter_to_ns(counter: u64, frequency_hz: u64) -> (ns: u64)
    requires
        frequency_hz > 0 ==> {
            &&& counter * NANOSECONDS_PER_SECOND / (frequency_hz as int) <= u64::MAX
            &&& (counter % frequency_hz) * NANOSECONDS_PER_SECOND <= u64::MAX
        },
    ensures
        ns == if frequency_hz == 0 {
            0
        } else {
            counter * NANOSECONDS_PER_SECOND / (frequency_hz as int)
        },
{
    if frequency_hz == 0 {
        return 0;
    }
    let secs: u64 = counter / frequency_hz;
    let rem: u64 = counter % frequency_hz;
    proof {
        let f = frequency_hz as int;
        let giga = NANOSECONDS_PER_SECOND as int;
        lemma_fundamental_div_mod(counter as int, f);
        assert(counter * giga == (secs * giga) * f + rem * giga) by (nonlinear_arith)
            requires
                counter == f * secs + rem,
        ;
        assert((secs * giga * f + rem * giga) / f == secs * giga + (rem * giga) / f)
            by (nonlinear_arith)
            requires
                f > 0,
                rem * giga >= 0,
        ;
        assert(0 <= secs * giga) by (nonlinear_arith)
            requires
                secs >= 0,
                giga > 0,
        ;
        assert(0 <= (rem * giga) / f) by (nonlinear_arith)
            requires
                0 <= rem * giga,
                f > 0,
        ;
    }
    secs * NANOSECONDS_PER_SECOND + (rem * NANOSECONDS_PER_SECOND) / frequency_hz
}

fn saturating_u128_to_u64(value: u128) -> (result: u64)
    ensures
        result == saturated(value as int),
{
    if value > 0xFFFF_FFFF_FFFF_FFFF {
        u64::MAX
    } else {
        value as u64
    }
}

/// Law: later tick counts never convert to earlier times.
pub proof fn law_conversions_are_monotonic(
    earlier: u64,
    later: u64,
    period_femtoseconds: u32,
    frequency_hz: u64,
)
    requires
        earlier <= later,
        frequency_hz > 0,
    ensures
        femtosecond_ticks(earlier, period_femtoseconds) <= femtosecond_ticks(
            later,
            period_femtoseconds,
        ),
        frequency_ticks(earlier, frequency_hz) <= frequency_ticks(later, frequency_hz),
{
    lemma_mul_inequality(earlier as int, later as int, period_femtoseconds as int);
    lemma_div_is_ordered(
        earlier * period_femtoseconds,
        later * period_femtoseconds,
        FEMTOSECONDS_PER_NANOSECOND as int,
    );
    lemma_mul_inequality(earlier as int, later as int, NANOSECONDS_PER_SECOND as int);
    lemma_div_is_ordered(
        earlier * NANOSECONDS_PER_SECOND,
        later * NANOSECONDS_PER_SECOND,
        frequency_hz as int,
    );
}

/// Law: a conversion is the exact time, rounded down to whole nanoseconds, or the largest
/// number if that does not fit.
pub proof fn law_conversions_round_down(ticks: u64, period: u32, frequency: u64)
    requires
        frequency > 0,
    ensures
        ({
            let ns = femtosecond_ticks(ticks, period);
            &&& ns * 1_000_000 <= ticks * period
            &&& ticks * period < (ns + 1) * 1_000_000 || ns == 0xFFFF_FFFF_FFFF_FFFF
        }),
        ({
            let ns = frequency_ticks(ticks, frequency);
            &&& ns * frequency <= ticks * 1_000_000_000
            &&& ticks * 1_000_000_000 < (ns + 1) * frequency || ns == 0xFFFF_FFFF_FFFF_FFFF
        }),
{
    lemma_fundamental_div_mod(ticks * period, 1_000_000);
    let f = frequency as int;
    let x = ticks * 1_000_000_000;
    let q = x / f;
    lemma_fundamental_div_mod(x, f);
    vstd::arithmetic::div_mod::lemma_mod_bound(x, f);
    assert(q * f <= x < (q + 1) * f) by (nonlinear_arith)
        requires
            x == f * q + x % f,
            0 <= x % f < f,
    ;
    vstd::arithmetic::div_mod::lemma_div_pos_is_pos(x, f);
    if q > u64::MAX {
        lemma_mul_inequality(u64::MAX as int, q, f);
    }
    assert(0 <= ticks * period) by (nonlinear_arith)
        requires
            0 <= ticks,
            0 <= period,
    ;
}

/// Law: a number that fits stays as it is, and any other becomes the largest.
pub proof fn law_saturation(value: int)
    requires
        0 <= value,
    ensures
        value <= 0xFFFF_FFFF_FFFF_FFFF ==> saturated(value) == value,
        value > 0xFFFF_FFFF_FFFF_FFFF ==> saturated(value) == 0xFFFF_FFFF_FFFF_FFFF,
{
}

/// Law: a pair of seconds and nanoseconds is a duration exactly if both are not negative, the
/// nanoseconds make no second, and the sum fits; it is that sum.
pub proof fn law_duration_of_a_pair(seconds: i64, nanoseconds: i64, ns: Option<u64>)
    requires
        call_ensures(timespec_to_duration_nanoseconds, (seconds, nanoseconds), ns),
    ensures
        ns is Some <==> 0 <= seconds && 0 <= nanoseconds < 1_000_000_000 && seconds * 1_000_000_000
            + nanoseconds < 0x1_0000_0000_0000_0000,
        ns is Some ==> ns->0 == seconds * 1_000_000_000 + nanoseconds,
        ns is Some ==> ns->0 as int / 1_000_000_000 == seconds && ns->0 as int % 1_000_000_000
            == nanoseconds,
{
}

/// Law: the time of a counter is the exact one, rounded down to whole nanoseconds.
pub proof fn law_counter_rounds_down(counter: u64, frequency: u64, ns: u64)
    requires
        call_ensures(counter_to_ns, (counter, frequency), ns),
    ensures
        frequency > 0 ==> ns * frequency <= counter * 1_000_000_000 < (ns + 1) * frequency,
        frequency == 0 ==> ns == 0,
{
    if frequency > 0 {
        let f = frequency as int;
        let x = counter * 1_000_000_000;
        lemma_fundamental_div_mod(x, f);
        vstd::arithmetic::div_mod::lemma_mod_bound(x, f);
        assert(ns * f <= x < (ns + 1) * f) by (nonlinear_arith)
            requires
                x == f * ns + x % f,
                0 <= x % f < f,
        ;
    }
}

} // verus!
