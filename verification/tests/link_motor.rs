//! Duty values of the motors.

use axiomos::link::motor::{duty_to_permille, split_duty, Direction};

#[test]
fn zero_is_coast() {
    assert_eq!(split_duty(0, 65535), (Direction::Coast, 0));
}

#[test]
fn sign_selects_direction() {
    assert_eq!(split_duty(500, 1000).0, Direction::Forward);
    assert_eq!(split_duty(-500, 1000).0, Direction::Reverse);
}

#[test]
fn magnitude_scales_linearly() {
    assert_eq!(split_duty(1000, 1000), (Direction::Forward, 1000));
    assert_eq!(split_duty(500, 1000), (Direction::Forward, 500));
    assert_eq!(split_duty(-250, 1000), (Direction::Reverse, 250));
    assert_eq!(split_duty(1000, 65535), (Direction::Forward, 65535));
    assert_eq!(split_duty(500, 65535), (Direction::Forward, 32767));
}

#[test]
fn out_of_range_saturates_not_overflows() {
    assert_eq!(split_duty(i16::MAX, 1000), (Direction::Forward, 1000));
    assert_eq!(split_duty(i16::MIN, 1000), (Direction::Reverse, 1000));
    assert_eq!(split_duty(5000, 1000), (Direction::Forward, 1000));
}

#[test]
fn duty_to_permille_scales_forward_only() {
    assert_eq!(duty_to_permille(0, 90), 0);
    assert_eq!(duty_to_permille(90, 90), 1000);
    assert_eq!(duty_to_permille(45, 90), 500);
    assert_eq!(duty_to_permille(200, 90), 1000); // saturates at duty_max
    assert_eq!(duty_to_permille(50, 0), 0); // guard
}

#[test]
fn pwm_max_zero_yields_zero_magnitude() {
    assert_eq!(split_duty(1000, 0), (Direction::Forward, 0));
}

#[test]
fn magnitude_never_exceeds_pwm_max() {
    for duty in [-1000i16, -1, 1, 333, 999, 1000, 30000, -30000] {
        for pwm_max in [0u16, 1, 255, 1000, 4095, 65535] {
            let (_, mag) = split_duty(duty, pwm_max);
            assert!(mag <= pwm_max, "duty={duty} pwm_max={pwm_max} mag={mag}");
        }
    }
}
