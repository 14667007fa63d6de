//! Conversions of time, and the queue of sleepers.

use axiomos::time::convert::{
    femtosecond_ticks_to_nanoseconds, frequency_ticks_to_nanoseconds,
    timespec_to_duration_nanoseconds, NANOSECONDS_PER_SECOND,
};
use axiomos::time::deadline::{DeadlineEntry, DeadlineQueue};

#[test]
fn hpet_period_conversion_has_correct_units() {
    // A 100 ns HPET period is reported as 100,000,000 femtoseconds.
    assert_eq!(femtosecond_ticks_to_nanoseconds(10, 100_000_000), 1_000);
}

#[test]
fn frequency_conversion_handles_fractional_seconds() {
    assert_eq!(
        frequency_ticks_to_nanoseconds(37_500_000, 50_000_000),
        Some(750_000_000)
    );
}

#[test]
fn frequency_conversion_rejects_zero_frequency() {
    assert_eq!(frequency_ticks_to_nanoseconds(1, 0), None);
}

#[test]
fn conversions_do_not_overflow_intermediate_values() {
    assert_eq!(
        femtosecond_ticks_to_nanoseconds(u64::MAX, u32::MAX),
        u64::MAX
    );
    assert_eq!(frequency_ticks_to_nanoseconds(u64::MAX, 1), Some(u64::MAX));
}

#[test]
fn conversions_are_monotonic() {
    let period = 100_000_000;
    for ticks in 0..10_000 {
        assert!(
            femtosecond_ticks_to_nanoseconds(ticks, period)
                <= femtosecond_ticks_to_nanoseconds(ticks + 1, period)
        );
    }
}

#[test]
fn timespec_validation_rejects_negative_and_non_normalized_values() {
    assert_eq!(timespec_to_duration_nanoseconds(-1, 0), None);
    assert_eq!(timespec_to_duration_nanoseconds(0, -1), None);
    assert_eq!(
        timespec_to_duration_nanoseconds(0, NANOSECONDS_PER_SECOND as i64),
        None
    );
}

#[test]
fn timespec_conversion_checks_overflow() {
    assert_eq!(
        timespec_to_duration_nanoseconds(2, 500_000_000),
        Some(2_500_000_000)
    );
    assert_eq!(timespec_to_duration_nanoseconds(i64::MAX, 0), None);
}

#[test]
fn deadline_queue_orders_concurrent_sleepers_and_preserves_ties() {
    let mut queue = DeadlineQueue::<u8, 5>::new();
    queue.push(30, 3).unwrap();
    queue.push(10, 1).unwrap();
    queue.push(20, 2).unwrap();
    queue.push(20, 4).unwrap();

    assert_eq!(queue.next_deadline_ns(), Some(10));
    assert_eq!(queue.pop_expired(9), None);
    assert_eq!(
        queue.pop_expired(10).map(DeadlineEntry::into_value),
        Some(1)
    );
    assert_eq!(
        queue.pop_expired(20).map(DeadlineEntry::into_value),
        Some(2)
    );
    assert_eq!(
        queue.pop_expired(20).map(DeadlineEntry::into_value),
        Some(4)
    );
    assert_eq!(
        queue.pop_expired(30).map(DeadlineEntry::into_value),
        Some(3)
    );
    assert!(queue.is_empty());
}

#[test]
fn deadline_queue_cancellation_removes_only_the_requested_sleeper() {
    let mut queue = DeadlineQueue::<u8, 4>::new();
    queue.push(10, 1).unwrap();
    queue.push(20, 2).unwrap();
    queue.push(30, 3).unwrap();

    let cancelled = queue.cancel(|entry| *entry.value() == 2).unwrap();
    assert_eq!(cancelled.deadline_ns(), 20);
    assert_eq!(cancelled.into_value(), 2);
    assert_eq!(queue.len(), 2);
    assert_eq!(
        queue.pop_expired(30).map(DeadlineEntry::into_value),
        Some(1)
    );
    assert_eq!(
        queue.pop_expired(30).map(DeadlineEntry::into_value),
        Some(3)
    );
}

#[test]
fn deadline_queue_capacity_failure_returns_ownership() {
    let mut queue = DeadlineQueue::<u8, 1>::new();
    queue.push(10, 1).unwrap();

    assert_eq!(queue.push(20, 2), Err(2));
    assert_eq!(queue.len(), 1);
}

#[test]
fn cancellation_removes_the_first_match_in_queue_order() {
    let mut queue = DeadlineQueue::<u8, 4>::new();
    queue.push(10, 1).unwrap();
    queue.push(30, 3).unwrap();
    queue.push(20, 2).unwrap();
    let cancelled = queue.cancel(|entry| *entry.value() != 1).unwrap();
    assert_eq!((cancelled.deadline_ns(), cancelled.into_value()), (20, 2));
    assert_eq!(queue.pop_expired(30).map(DeadlineEntry::into_value), Some(1));
    assert_eq!(queue.pop_expired(30).map(DeadlineEntry::into_value), Some(3));
    assert!(queue.is_empty());
    assert!(queue.cancel(|_| true).is_none());

    // Among equal deadlines the older one goes. The predicate may keep count.
    for value in [7, 8, 9] {
        queue.push(50, value).unwrap();
    }
    let mut asked = 0;
    let cancelled = queue.cancel(|entry| {
        asked += 1;
        *entry.value() > 7
    });
    assert_eq!(cancelled.map(DeadlineEntry::into_value), Some(8));
    assert!((1..=3).contains(&asked));
    assert!(queue.cancel(|entry| *entry.value() == 8).is_none());
    assert_eq!(queue.len(), 2);
}
