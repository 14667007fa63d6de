//! Mapping plans.

use axiomos::acpi::{plan_mapping, MappingPlan, PAGE_SIZE};

#[test]
fn aligned_region_uses_one_page() {
    assert_eq!(
        plan_mapping(0x2000, 64, 16),
        Some(MappingPlan {
            physical_base: 0x2000,
            offset: 0,
            page_count: 1,
            mapped_len: PAGE_SIZE,
        })
    );
}

#[test]
fn unaligned_region_returns_offset_and_covers_crossing_page() {
    assert_eq!(
        plan_mapping(0x2ff0, 32, 16),
        Some(MappingPlan {
            physical_base: 0x2000,
            offset: 0xff0,
            page_count: 2,
            mapped_len: 2 * PAGE_SIZE,
        })
    );
}

#[test]
fn type_size_is_covered_when_larger_than_requested_length() {
    assert_eq!(plan_mapping(0x3ff8, 4, 16).unwrap().page_count, 2);
}

#[test]
fn zero_length_and_overflow_are_rejected() {
    assert_eq!(plan_mapping(0x1000, 0, 0), None);
    assert_eq!(plan_mapping(usize::MAX - 3, 8, 1), None);
}
