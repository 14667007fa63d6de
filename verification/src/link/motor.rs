//! Motor duty arithmetic, independent of any driver.
//!
//! A signed per-mille duty becomes a direction and an unsigned PWM magnitude.

use vstd::prelude::*;

verus! {

/// Which way a motor channel turns.
#[derive(Debug, Clone, Copy, PartialEq, Eq, Structural)]
pub enum Direction {
    Forward,
    Reverse,
    /// Zero command.
    Coast,
}

/// Full scale of a per-mille duty.
pub const DUTY_FULL_SCALE: i16 = 1000;

/// Which wheel a channel drives.
#[derive(Debug, Clone, Copy, PartialEq, Eq, Structural)]
pub enum MotorSide {
    Left,
    Right,
}

/// `duty` limited to the per-mille range.
pub open spec fn saturated_duty(duty: i16) -> int {
    if duty < -DUTY_FULL_SCALE {
        -DUTY_FULL_SCALE as int
    } else if duty > DUTY_FULL_SCALE {
        DUTY_FULL_SCALE as int
    } else {
        duty as int
    }
}

/// Distance from zero.
pub open spec fn magnitude(value: int) -> int {
    if value < 0 {
        -value
    } else {
        value
    }
}

/// Map an unsigned duty in `0..=duty_max` to a forward per-mille setpoint,
/// rounding down and saturating at `duty_max`. A zero `duty_max` gives zero.
#[must_use]
pub fn duty_to_permille(value: u32, duty_max: u32) -> (permille: i16)
    ensures
        duty_max == 0 ==> permille == 0,
        duty_max > 0 ==> permille == (if value < duty_max { value as int } else { duty_max as int })
            * DUTY_FULL_SCALE / (duty_max as int),
        0 <= permille <= DUTY_FULL_SCALE,
{
    if duty_max == 0 {
        return 0;
    }
    let v: u64 = if value < duty_max {
        value as u64
    } else {
        duty_max as u64
    };
    let max: u64 = duty_max as u64;
    assert(v * 1000 <= 0xFFFF_FFFF * 1000);
    assert(0 <= (v as int * 1000) / (max as int) <= 1000) by (nonlinear_arith)
        requires
            0 <= v <= max,
            max > 0,
    ;
    ((v * 1000) / max) as i16
}

/// Split a signed per-mille duty into a direction and a magnitude scaled to
/// `0..=pwm_max`. The duty is saturated to full scale first; zero coasts.
#[must_use]
pub fn split_duty(duty: i16, pwm_max: u16) -> (result: (Direction, u16))
    ensures
        result.0 == if duty == 0 {
            Direction::Coast
        } else if duty > 0 {
            Direction::Forward
        } else {
            Direction::Reverse
        },
        result.1 == magnitude(saturated_duty(duty)) * pwm_max / (DUTY_FULL_SCALE as int),
        result.1 <= pwm_max,
{
    if duty == 0 {
        assert(0int * pwm_max / 1000 == 0) by (nonlinear_arith);
        return (Direction::Coast, 0);
    }
    let duty32: i32 = duty as i32;
    let full: i32 = DUTY_FULL_SCALE as i32;
    let size: i32 = if duty32 < 0 {
        0 - duty32
    } else {
        duty32
    };
    let mag: u32 = if size > full {
        full as u32
    } else {
        size as u32
    };
    assert(mag == magnitude(saturated_duty(duty)));
    assert(mag as int * pwm_max as int <= 1000 * 0xFFFF) by (nonlinear_arith)
        requires
            mag <= 1000,
            pwm_max <= 0xFFFF,
    ;
    assert(0 <= (mag as int * pwm_max as int) / 1000 <= pwm_max) by (nonlinear_arith)
        requires
            0 <= mag <= 1000,
            0 <= pwm_max,
    ;
    let scaled: u16 = ((mag * pwm_max as u32) / 1000) as u16;
    if duty > 0 {
        (Direction::Forward, scaled)
    } else {
        (Direction::Reverse, scaled)
    }
}

/// Law: the PWM magnitude is the duty's share of full scale, rounded down: full scale
/// and beyond give all of `pwm_max`, zero gives nothing. The direction is the sign.
pub proof fn law_duty_is_split(duty: i16, pwm_max: u16, result: (Direction, u16))
    requires
        call_ensures(split_duty, (duty, pwm_max), result),
    ensures
        result.0 is Forward <==> duty > 0,
        result.0 is Reverse <==> duty < 0,
        result.0 is Coast <==> duty == 0,
        duty >= 1000 || duty <= -1000 ==> result.1 == pwm_max,
        duty == 0 ==> result.1 == 0,
        0 <= duty <= 1000 ==> 1000 * result.1 <= duty * pwm_max < 1000 * (result.1 + 1),
        -1000 <= duty <= 0 ==> 1000 * result.1 <= -duty * pwm_max < 1000 * (result.1 + 1),
{
    let m = magnitude(saturated_duty(duty));
    let product = m * pwm_max;
    vstd::arithmetic::div_mod::lemma_fundamental_div_mod(product, 1000);
    assert(1000 * pwm_max / 1000 == pwm_max);
    assert(0 * pwm_max == 0);
}

/// Law: a duty of `duty_max` or more is full scale, and any other its share of it,
/// rounded down; without a range there is none.
pub proof fn law_duty_is_scaled(value: u32, duty_max: u32, permille: i16)
    requires
        call_ensures(duty_to_permille, (value, duty_max), permille),
    ensures
        duty_max == 0 ==> permille == 0,
        duty_max > 0 && value >= duty_max ==> permille == 1000,
        duty_max > 0 && value <= duty_max ==> permille * duty_max <= value * 1000 < (permille + 1)
            * duty_max,
{
    if duty_max > 0 {
        let v = if value < duty_max {
            value as int
        } else {
            duty_max as int
        };
        let max = duty_max as int;
        vstd::arithmetic::div_mod::lemma_fundamental_div_mod(v * 1000, max);
        let q = v * 1000 / max;
        assert(q * max <= v * 1000 < (q + 1) * max) by (nonlinear_arith)
            requires
                v * 1000 == max * q + (v * 1000) % max,
                0 <= (v * 1000) % max < max,
        ;
        if v == max {
            vstd::arithmetic::div_mod::lemma_div_multiples_vanish(1000, max);
            assert(max * 1000 / max == 1000);
        }
    }
}

} // verus!
