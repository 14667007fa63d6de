//! Segments and the pages that they touch.

use axiomos::vmem::addr::{PageRangeInclusive, Size4KiB, VirtAddr};
use axiomos::vmem::segment::Segment;

#[test]
fn contains_uses_an_inclusive_start_and_exclusive_end() {
    let segment = Segment::new(VirtAddr::new(0x1000), 0x100);

    assert!(segment.contains(VirtAddr::new(0x1000)));
    assert!(segment.contains(VirtAddr::new(0x10ff)));
    assert!(!segment.contains(VirtAddr::new(0x0fff)));
    assert!(!segment.contains(VirtAddr::new(0x1100)));
}

#[test]
fn zero_length_segment_contains_no_addresses() {
    let segment = Segment::new(VirtAddr::new(0x1000), 0);

    assert!(!segment.contains(VirtAddr::new(0x0fff)));
    assert!(!segment.contains(VirtAddr::new(0x1000)));
}

#[test]
fn page_range_conversion_covers_every_touched_page() {

    let segment = Segment::new(VirtAddr::new(0x1fff), 0x1002);
    let pages = PageRangeInclusive::<Size4KiB>::from(&segment);

    assert_eq!(pages.start.start_address(), VirtAddr::new(0x1000));
    assert_eq!(pages.end.start_address(), VirtAddr::new(0x3000));

    let owned_pages = PageRangeInclusive::<Size4KiB>::from(&segment);
    assert_eq!(owned_pages.start, pages.start);
    assert_eq!(owned_pages.end, pages.end);
}
