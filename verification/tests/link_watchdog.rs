//! The motor watchdog.

use axiomos::link::codec::Msg;
use axiomos::link::watchdog::{seq_newer, LinkLiveness, Output, Watchdog};

fn sp(seq: u8, l: i16, r: i16) -> Msg {
    Msg::MotorSetpoint {
        seq,
        left: l,
        right: r,
    }
}

#[test]
fn cold_start_is_safe_stop() {
    let wd = Watchdog::new(100);
    assert_eq!(wd.output(0), Output::SafeStop);
    assert_eq!(wd.output(50), Output::SafeStop);
}

#[test]
fn fresh_setpoint_drives_then_times_out() {
    let mut wd = Watchdog::new(100);
    assert!(wd.on_msg(&sp(1, 200, -200), 1000));
    assert_eq!(
        wd.output(1050),
        Output::Drive {
            left: 200,
            right: -200
        }
    );
    assert_eq!(wd.output(1100), Output::SafeStop); // now >= deadline (1100)
    assert_eq!(wd.output(2000), Output::SafeStop);
}

#[test]
fn heartbeats_never_extend_motor_command_lifetime() {
    let mut wd = Watchdog::new(100);
    wd.on_msg(&sp(1, 50, 50), 0);
    assert!(wd.on_msg(&Msg::HeartbeatToShrike { seq: 7 }, 90));
    assert_eq!(wd.output(100), Output::SafeStop);
    assert!(wd.on_msg(&Msg::HeartbeatToShrike { seq: 7 }, 110));
    assert_eq!(wd.output(110), Output::SafeStop);
    assert!(wd.on_msg(&Msg::HeartbeatToShrike { seq: 8 }, 120));
    assert_eq!(wd.output(120), Output::SafeStop);
}

#[test]
fn timeout_requires_release_then_a_fresh_command() {
    let mut wd = Watchdog::new(100);
    wd.on_msg(&sp(1, 50, 50), 0);
    assert_eq!(wd.output(100), Output::SafeStop);
    wd.on_msg(&sp(2, 60, 60), 101);
    assert_eq!(wd.output(101), Output::SafeStop);
    wd.on_msg(&Msg::Estop { assert: false }, 102);
    assert_eq!(wd.output(102), Output::SafeStop);
    wd.on_msg(&sp(3, 20, 20), 103);
    assert_eq!(
        wd.output(103),
        Output::Drive {
            left: 20,
            right: 20
        }
    );
}

#[test]
fn physical_stop_cycle_does_not_erase_timeout_rearm_requirement() {
    for assert_at in [90, 100] {
        let mut wd = Watchdog::new(100);
        wd.on_msg(&sp(1, 50, 50), 0);
        assert_eq!(
            wd.output(assert_at),
            if assert_at < 100 {
                Output::Drive {
                    left: 50,
                    right: 50,
                }
            } else {
                Output::SafeStop
            }
        );
        wd.set_hardware_estop(true);
        wd.set_hardware_estop(false);
        wd.on_msg(&sp(2, 60, 60), 101);
        assert_eq!(wd.output(101), Output::SafeStop);
        wd.on_msg(&Msg::Estop { assert: false }, 102);
        wd.on_msg(&sp(3, 20, 20), 103);
        assert_eq!(
            wd.output(103),
            Output::Drive {
                left: 20,
                right: 20
            }
        );
    }
}

#[test]
fn redundant_release_does_not_refresh_an_old_command() {
    let mut wd = Watchdog::new(100);
    wd.on_msg(&sp(1, 50, 50), 0);
    wd.on_msg(&Msg::Estop { assert: false }, 90);
    assert_eq!(wd.output(100), Output::SafeStop);
}

#[test]
fn stale_or_replayed_setpoint_rejected_and_no_liveness() {
    let mut wd = Watchdog::new(100);
    wd.on_msg(&sp(5, 10, 10), 0);
    // Replay of seq 5 with different values at t=90: rejected entirely.
    assert!(!wd.on_msg(&sp(5, 999, 999), 90));
    assert_eq!(
        wd.output(50),
        Output::Drive {
            left: 10,
            right: 10
        }
    );
    // Replay did NOT refresh liveness, so it still times out at 100.
    assert_eq!(wd.output(100), Output::SafeStop);
}

#[test]
fn older_seq_rejected() {
    let mut wd = Watchdog::new(100);
    wd.on_msg(&sp(10, 1, 1), 0);
    assert!(!wd.on_msg(&sp(9, 2, 2), 10)); // 9 older than 10
    assert_eq!(wd.output(50), Output::Drive { left: 1, right: 1 });
}

#[test]
fn seq_wraps_around() {
    let mut wd = Watchdog::new(100);
    assert!(wd.on_msg(&sp(254, 1, 1), 0));
    assert!(wd.on_msg(&sp(255, 2, 2), 10));
    assert!(wd.on_msg(&sp(0, 3, 3), 20)); // 255 -> 0 is newer
    assert!(wd.on_msg(&sp(1, 4, 4), 30));
    assert_eq!(wd.output(40), Output::Drive { left: 4, right: 4 });
}

#[test]
fn estop_latches_and_dominates_fresh_setpoint() {
    let mut wd = Watchdog::new(100);
    wd.on_msg(&sp(1, 100, 100), 0);
    wd.on_msg(&Msg::Estop { assert: true }, 10);
    assert_eq!(wd.output(20), Output::SafeStop);
    // A setpoint while latched does not override the e-stop, and does NOT
    // arm driving (it was received while latched).
    wd.on_msg(&sp(2, 100, 100), 30);
    assert_eq!(wd.output(40), Output::SafeStop);
    // Release alone does NOT resume — a fresh post-release setpoint is
    // required, so we never drive on a possibly-stale stored command.
    wd.on_msg(&Msg::Estop { assert: false }, 50);
    assert_eq!(wd.output(60), Output::SafeStop);
    // A fresh setpoint after release arms driving again.
    wd.on_msg(&sp(3, 70, 70), 70);
    assert_eq!(
        wd.output(80),
        Output::Drive {
            left: 70,
            right: 70
        }
    );
}

#[test]
fn estop_release_with_no_setpoint_during_latch_requires_fresh() {
    let mut wd = Watchdog::new(100);
    wd.on_msg(&sp(1, 9, 9), 0);
    wd.on_msg(&Msg::Estop { assert: true }, 10);
    wd.on_msg(&Msg::Estop { assert: false }, 20);
    assert_eq!(wd.output(25), Output::SafeStop); // no fresh setpoint yet
    wd.on_msg(&sp(2, 4, 4), 30);
    assert_eq!(wd.output(35), Output::Drive { left: 4, right: 4 });
}

#[test]
fn replay_after_estop_release_is_still_rejected() {
    // seq tracking persists across e-stop: a replay of the pre-estop seq
    // must not arm driving after release.
    let mut wd = Watchdog::new(100);
    wd.on_msg(&sp(5, 1, 1), 0);
    wd.on_msg(&Msg::Estop { assert: true }, 10);
    wd.on_msg(&Msg::Estop { assert: false }, 20);
    assert!(!wd.on_msg(&sp(5, 1, 1), 30)); // replay rejected
    assert_eq!(wd.output(35), Output::SafeStop);
}

#[test]
fn seq_newer_half_window_boundary() {
    assert!(!seq_newer(128, 0)); // d == 128 rejected (ambiguous half-window)
    assert!(seq_newer(127, 0)); // d == 127 newer
    assert!(!seq_newer(0, 128)); // d == 0-128 == 128 -> rejected
    assert!(seq_newer(200, 100)); // d == 100 newer
    assert!(!seq_newer(0, 0)); // equal rejected
}

#[test]
fn seq_newer_matches_rfc1982_over_all_pairs() {
    for last in 0u8..=255 {
        for new in 0u8..=255 {
            let d = new.wrapping_sub(last);
            let expected = d != 0 && d < 128;
            assert_eq!(seq_newer(new, last), expected, "new={new} last={last}");
        }
    }
}

#[test]
fn timeout_zero_always_expires() {
    let mut wd = Watchdog::new(0);
    wd.on_msg(&sp(1, 5, 5), 100);
    // deadline == now == 100, expired uses >=, so immediately safe.
    assert_eq!(wd.output(100), Output::SafeStop);
}

#[test]
fn link_liveness_cold_dead_until_first_inbound() {
    let l = LinkLiveness::new(100);
    assert!(!l.alive(0));
    assert!(!l.alive(50));
}

#[test]
fn link_liveness_alive_then_times_out() {
    let mut l = LinkLiveness::new(100);
    l.on_inbound(1000);
    assert!(l.alive(1050));
    assert!(!l.alive(1100)); // now >= deadline
    assert!(!l.alive(2000));
}

#[test]
fn link_liveness_refresh_extends() {
    let mut l = LinkLiveness::new(100);
    l.on_inbound(0);
    assert!(l.alive(90));
    l.on_inbound(90); // refresh before timeout
    assert!(l.alive(150));
    assert!(!l.alive(190));
}

#[test]
fn backwards_now_is_caller_contract_not_defended() {
    // Documents the monotonic-`now` contract: the watchdog has no internal
    // clock, so a caller that passes a decreasing `now` makes the link look
    // MORE alive (now < deadline => not expired). The caller MUST supply a
    // monotonic clock; this test pins that assumption so a future regression
    // in the caller is visible rather than silent.
    let mut wd = Watchdog::new(100);
    wd.on_msg(&sp(1, 5, 5), 1000); // deadline = 1100
    assert_eq!(wd.output(500), Output::Drive { left: 5, right: 5 });
}

#[test]
fn deadline_saturates_near_u64_max() {
    let mut wd = Watchdog::new(u64::MAX);
    wd.on_msg(&sp(1, 5, 5), u64::MAX - 1);
    // saturating_add keeps deadline at u64::MAX; not expired before then.
    assert_eq!(wd.output(u64::MAX - 1), Output::Drive { left: 5, right: 5 });
    assert_eq!(wd.output(u64::MAX), Output::SafeStop);
}

#[test]
fn estop_dominates_even_when_not_expired() {
    let mut wd = Watchdog::new(1_000_000);
    wd.on_msg(&sp(1, 5, 5), 0);
    wd.on_msg(&Msg::Estop { assert: true }, 1);
    assert_eq!(wd.output(2), Output::SafeStop);
}

#[test]
fn telemetry_messages_are_not_inputs() {
    let mut wd = Watchdog::new(100);
    wd.on_msg(&sp(1, 7, 7), 0);
    assert!(!wd.on_msg(
        &Msg::Sensor {
            ultrasonic_echo_us: 1,
            estop_line: false,
            flags: 0
        },
        50
    ));
    assert!(!wd.on_msg(&Msg::HeartbeatToPi { seq: 1 }, 50));
    // Those did not refresh liveness.
    assert_eq!(wd.output(100), Output::SafeStop);
}

#[test]
fn only_a_standing_setpoint_is_driven() {
    let setpoint = |seq, left| Msg::MotorSetpoint { seq, left, right: -left };
    let drive = |left: i16| Output::Drive { left, right: -left };
    let mut wd = Watchdog::new(100);
    // Taken with the line high, and not driven once it is low.
    wd.set_hardware_estop(true);
    assert!(wd.on_msg(&setpoint(1, 10), 0));
    wd.set_hardware_estop(false);
    assert_eq!(wd.output(1), Output::SafeStop);
    // The last accepted one is driven until it runs out.
    assert!(wd.on_msg(&setpoint(2, 20), 10));
    assert!(wd.on_msg(&setpoint(3, 30), 20));
    assert!(!wd.on_msg(&setpoint(2, 99), 30));
    wd.set_hardware_estop(false);
    assert_eq!(wd.output(119), drive(30));
    assert_eq!(wd.output(120), Output::SafeStop);
    // A message that comes late means that a release is awaited.
    assert!(wd.on_msg(&setpoint(4, 40), 120));
    assert_eq!(wd.output(121), Output::SafeStop);
    wd.on_msg(&Msg::Estop { assert: false }, 130);
    assert_eq!(wd.output(131), Output::SafeStop);
    assert!(wd.on_msg(&setpoint(5, 50), 140));
    assert_eq!(wd.output(141), drive(50));
    // A release alone takes the motion away, too.
    wd.on_msg(&Msg::Estop { assert: false }, 150);
    assert_eq!(wd.output(151), Output::SafeStop);
}
