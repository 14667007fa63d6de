//! Liveness and heartbeat of the session.

use axiomos::link::session::{LinkAction, LinkSession};

// timeout 100, heartbeat every 20.
fn sess() -> LinkSession {
    LinkSession::new(100, 20)
}

#[test]
fn cold_link_is_dead_and_commands_safestop() {
    let mut s = sess();
    // No inbound ever -> not alive -> SafeStop (until sent).
    assert_eq!(s.tick(0), LinkAction::SafeStop);
    s.estop_sent();
    assert_eq!(s.tick(1), LinkAction::Idle);
}

#[test]
fn heartbeats_on_cadence_while_alive() {
    let mut s = sess();
    s.on_inbound(0);
    // last_hb starts at 0, so at now=0 nothing is due yet.
    assert_eq!(s.tick(0), LinkAction::Idle);
    assert_eq!(s.tick(20), LinkAction::Heartbeat(0)); // period elapsed
    assert_eq!(s.tick(30), LinkAction::Idle); // < period since last hb
    s.on_inbound(40);
    assert_eq!(s.tick(40), LinkAction::Heartbeat(1)); // 40-20 >= 20
}

#[test]
fn exactly_one_safestop_on_death_then_idle() {
    let mut s = sess();
    s.on_inbound(0);
    let _ = s.tick(20); // alive heartbeat (consume)
                        // No further inbound; at now=100 liveness expires (deadline = 0+100).
    assert_eq!(s.tick(100), LinkAction::SafeStop);
    s.estop_sent();
    assert_eq!(s.tick(120), LinkAction::Idle); // not re-spammed
    assert_eq!(s.tick(200), LinkAction::Idle);
}

#[test]
fn safestop_retried_until_estop_sent() {
    let mut s = sess();
    s.on_inbound(0);
    s.tick(0);
    // Dead and the caller could NOT send (ring full) -> keeps asking.
    assert_eq!(s.tick(100), LinkAction::SafeStop);
    assert_eq!(s.tick(110), LinkAction::SafeStop);
    assert_eq!(s.tick(120), LinkAction::SafeStop);
    s.estop_sent();
    assert_eq!(s.tick(130), LinkAction::Idle);
}

#[test]
fn models_poll_integration_enqueue_fail_then_success() {
    // Mirrors control_link::poll(): on SafeStop the caller tries to enqueue
    // an e-stop and only calls estop_sent() if the enqueue SUCCEEDED. Here
    // we simulate the TX ring being full for two ticks (enqueue fails -> do
    // NOT call estop_sent) then having room (success -> estop_sent).
    let mut s = sess();
    s.on_inbound(0);
    let _ = s.tick(20);
    let mut tx_ring_full = true;
    for now in [100u64, 110] {
        assert_eq!(s.tick(now), LinkAction::SafeStop);
        if !tx_ring_full {
            s.estop_sent();
        }
    }
    // Ring frees up: this tick's SafeStop enqueue succeeds.
    assert_eq!(s.tick(120), LinkAction::SafeStop);
    tx_ring_full = false;
    if !tx_ring_full {
        s.estop_sent();
    }
    // E-stop confirmed sent: no further SafeStop spam.
    assert_eq!(s.tick(130), LinkAction::Idle);
}

#[test]
fn no_heartbeat_while_dead() {
    let mut s = sess();
    s.on_inbound(0);
    s.tick(0);
    // dead from 100 on; must never emit Heartbeat
    for t in [100u64, 120, 140, 200, 400] {
        assert!(!matches!(s.tick(t), LinkAction::Heartbeat(_)));
        s.estop_sent(); // simulate it gets sent
    }
}

#[test]
fn heartbeats_resume_only_after_inbound_refresh() {
    let mut s = sess();
    s.on_inbound(0);
    s.tick(0);
    assert_eq!(s.tick(100), LinkAction::SafeStop); // dead
    s.estop_sent();
    assert_eq!(s.tick(150), LinkAction::Idle); // still dead, no HB
    s.on_inbound(160); // peer came back
                       // seq continues from before the outage; assert the variant, not value.
    assert!(matches!(s.tick(160), LinkAction::Heartbeat(_)));
}
