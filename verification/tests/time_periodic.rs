//! The periodic schedule.

use axiomos::time::periodic::{PeriodicSchedule, ReleaseError, ReleaseStats};

#[test]
fn absolute_releases_account_for_gaps_without_catch_up() {
    let mut clock = PeriodicSchedule::new(100, 10).unwrap();
    assert_eq!(clock.release(109).unwrap(), None);
    let first = clock.release(115).unwrap().unwrap();
    assert_eq!(
        (first.sequence, first.scheduled, first.deadline),
        (1, 110, 120)
    );
    assert_eq!(
        (first.actual, first.missed_before, first.wake_lateness),
        (115, 0, 5)
    );
    assert!(first.completed_in_time(119));
    assert!(!first.completed_in_time(120));
    assert!(!first.completed_in_time(114));
    assert_eq!(clock.next_deadline(), 120);

    let late = clock.release(145).unwrap().unwrap();
    assert_eq!(
        (late.sequence, late.scheduled, late.deadline),
        (4, 140, 150)
    );
    assert_eq!((late.missed_before, late.wake_lateness), (2, 25));
    assert_eq!(clock.release(145).unwrap(), None);
    assert_eq!(clock.release(149).unwrap(), None);
    assert_eq!(clock.release(150).unwrap().unwrap().sequence, 5);
    assert_eq!(
        clock.stats(),
        ReleaseStats {
            serviced: 3,
            missed: 2,
            late: 2,
            max_wake_lateness: 25,
        }
    );
}

#[test]
fn long_masked_interval_cannot_look_like_a_passing_schedule() {
    let mut clock = PeriodicSchedule::new(0, 10_000_000).unwrap();
    let first = clock.release(10_000_000).unwrap().unwrap();
    assert!(!first.completed_in_time(20_000_000));
    let resumed = clock.release(1_000_000_000).unwrap().unwrap();
    assert_eq!((resumed.sequence, resumed.missed_before), (100, 98));
    assert_eq!(clock.stats().serviced + clock.stats().missed, 100);
    assert_eq!(clock.next_deadline(), 1_010_000_000);
    assert_eq!(clock.release(1_000_000_000).unwrap(), None);
}

#[test]
fn invalid_clock_and_counter_exhaustion_reject_before_mutation() {
    assert_eq!(
        PeriodicSchedule::new(0, 0),
        Err(ReleaseError::InvalidPeriod)
    );
    assert_eq!(
        PeriodicSchedule::new(u64::MAX, 1),
        Err(ReleaseError::Exhausted)
    );
    let mut clock = PeriodicSchedule::new(100, 10).unwrap();
    let original = clock;
    assert_eq!(clock.release(99), Err(ReleaseError::ClockReversed));
    assert_eq!(clock, original);
    clock.next_sequence = u64::MAX;
    let original = clock;
    assert_eq!(clock.release(110), Err(ReleaseError::Exhausted));
    assert_eq!(clock, original);
    let mut end = PeriodicSchedule::new(u64::MAX - 1, 1).unwrap();
    let original = end;
    assert_eq!(end.release(u64::MAX), Err(ReleaseError::Exhausted));
    assert_eq!(end, original);
}
