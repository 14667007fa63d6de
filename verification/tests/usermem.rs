//! Copies to and from user memory.

use axiomos::usermem::{
    MockPageEntry, MockUserMemory, UserMemError, UserMemPerm, UserMemory, MAX_USER_COPY,
};
use axiomos::vmem::addr::VirtAddr;

fn rwx_page(p: MockUserMemory, vaddr: u64, content: &[u8]) -> MockUserMemory {
    let mut p = p;
    p.map_page(
        VirtAddr::new(vaddr),
        MockPageEntry {
            readable: true,
            writable: true,
        },
    );
    if !content.is_empty() {
        p.seed_page(VirtAddr::new(vaddr), 0, content);
    }
    p
}

#[test]
fn copy_from_user_round_trips_within_a_page() {
    let mut mem = MockUserMemory::new();
    mem = rwx_page(mem, 0x1000_0000, b"hello");
    let mut buf = [0u8; 5];
    mem.copy_from_user(&mut buf, VirtAddr::new(0x1000_0000))
        .unwrap();
    assert_eq!(&buf, b"hello");
}

#[test]
fn copy_from_user_spans_two_pages() {
    let mut mem = MockUserMemory::new();
    // Page at 0x2000_0000: fill LAST 8 bytes with a sentinel so the
    // chunked copy reads the page-end tail here.
    mem.map_page(
        VirtAddr::new(0x2000_0000),
        MockPageEntry {
            readable: true,
            writable: true,
        },
    );
    mem.seed_page(VirtAddr::new(0x2000_0000), 4088, b"END_OF_A");
    // Page at 0x2000_1000: "BBBBBBB." at offset 0 (sentinel for page-2).
    mem = rwx_page(mem, 0x2000_1000, b"BBBBBBB.");
    // Read 16 bytes starting at offset 4088 of the first page. Expected:
    //   bytes 0..8   = first-page offset 4088..4096 ("END_OF_A")
    //   bytes 8..16  = second-page offset 0..8 ("BBBBBBB.")
    let mut buf = [0u8; 16];
    mem.copy_from_user(&mut buf, VirtAddr::new(0x2000_0FF8))
        .unwrap();
    assert_eq!(&buf[..8], b"END_OF_A");
    assert_eq!(&buf[8..], b"BBBBBBB.");
}

#[test]
fn copy_from_user_unmapped_returns_error() {
    let mut mem = MockUserMemory::new();
    let mut buf = [0u8; 4];
    let err = mem
        .copy_from_user(&mut buf, VirtAddr::new(0x1000_0000))
        .unwrap_err();
    assert!(matches!(err, UserMemError::Unmapped(_)));
    // And the kernel buffer was not partially scribbled.
    assert_eq!(buf, [0u8; 4]);
}

#[test]
fn copy_from_user_permission_denied_returns_error() {
    let mut mem = MockUserMemory::new();
    mem.map_page(
        VirtAddr::new(0x1000_0000),
        MockPageEntry {
            readable: false,
            writable: false,
        },
    );
    let mut buf = [0u8; 4];
    let err = mem
        .copy_from_user(&mut buf, VirtAddr::new(0x1000_0000))
        .unwrap_err();
    assert!(matches!(
        err,
        UserMemError::PermissionDenied(_, UserMemPerm::Read)
    ));
}

#[test]
fn copy_to_user_writes_through_to_backing() {
    let mut mem = MockUserMemory::new();
    mem = rwx_page(mem, 0x1000_0000, &[0u8; 16]);
    mem.copy_to_user(VirtAddr::new(0x1000_0000), b"abcdef")
        .unwrap();
    let mut read_back = [0u8; 6];
    mem.copy_from_user(&mut read_back, VirtAddr::new(0x1000_0000))
        .unwrap();
    assert_eq!(&read_back, b"abcdef");
}

#[test]
fn copy_to_user_readonly_page_rejected() {
    let mut mem = MockUserMemory::new();
    mem.map_page(
        VirtAddr::new(0x1000_0000),
        MockPageEntry {
            readable: true,
            writable: false,
        },
    );
    let err = mem
        .copy_to_user(VirtAddr::new(0x1000_0000), b"abc")
        .unwrap_err();
    assert!(matches!(
        err,
        UserMemError::PermissionDenied(_, UserMemPerm::Write)
    ));
}

#[test]
fn copy_cstr_from_user_terminates_at_nul() {
    let mut mem = MockUserMemory::new();
    mem = rwx_page(mem, 0x1000_0000, b"hello\0world\0");
    let mut buf = [0u8; 16];
    let n = mem
        .copy_cstr_from_user(&mut buf, VirtAddr::new(0x1000_0000))
        .unwrap();
    assert_eq!(n, 5);
    assert_eq!(&buf[..6], b"hello\0");
}

#[test]
fn copy_cstr_from_user_truncated_when_buffer_too_small() {
    let mut mem = MockUserMemory::new();
    mem = rwx_page(mem, 0x1000_0000, b"hello world");
    let mut buf = [0u8; 4];
    let err = mem
        .copy_cstr_from_user(&mut buf, VirtAddr::new(0x1000_0000))
        .unwrap_err();
    assert!(matches!(err, UserMemError::Truncated(_, 4)));
}

#[test]
fn copy_cstr_from_user_crosses_page_with_unmapped_second_page() {
    let mut mem = MockUserMemory::new();
    // Page 0x1000_0000: fill the LAST three bytes with non-NUL data so
    // the cstr reader will walk past the page boundary and fault on the
    // unmapped next page (0x1000_1000).
    mem.map_page(
        VirtAddr::new(0x1000_0000),
        MockPageEntry {
            readable: true,
            writable: true,
        },
    );
    mem.seed_page(VirtAddr::new(0x1000_0000), 4093, b"abc");
    // No page mapped at 0x1000_1000.
    let mut buf = [0u8; 16];
    let err = mem
        .copy_cstr_from_user(&mut buf, VirtAddr::new(0x1000_0FFD))
        .unwrap_err();
    assert!(matches!(err, UserMemError::Unmapped(_)));
}

#[test]
fn null_address_is_rejected_uniformly() {
    let mut mem = MockUserMemory::new();
    let mut buf = [0u8; 4];
    assert!(matches!(
        mem.copy_from_user(&mut buf, VirtAddr::new(0)),
        Err(UserMemError::Null)
    ));
    assert!(matches!(
        mem.copy_to_user(VirtAddr::new(0), b"x"),
        Err(UserMemError::Null)
    ));
    assert!(matches!(
        mem.copy_cstr_from_user(&mut buf, VirtAddr::new(0)),
        Err(UserMemError::Null)
    ));
}

#[test]
fn oversized_copy_rejected_with_too_long() {
    let mut mem = MockUserMemory::new();
    let mut buf = vec![0u8; MAX_USER_COPY + 1];
    let err = mem
        .copy_from_user(&mut buf, VirtAddr::new(0x1000_0000))
        .unwrap_err();
    assert!(matches!(err, UserMemError::TooLong(_, MAX_USER_COPY)));
}

#[test]
fn empty_copy_is_noop() {
    let mut mem = MockUserMemory::new();
    let mut buf: [u8; 0] = [];
    // Empty copy does not need a mapped page; still must not panic.
    mem.copy_from_user(&mut buf, VirtAddr::new(0xDEAD_BEEF))
        .unwrap();
}

#[test]
fn cross_page_read_failure_does_not_partially_modify_kernel_buffer() {
    let mut mem = rwx_page(MockUserMemory::new(), 0x3000_0000, &[0xAA; 4096]);
    let mut dst = [0x55; 16];

    let error = mem
        .copy_from_user(&mut dst, VirtAddr::new(0x3000_0FF8))
        .unwrap_err();

    assert!(matches!(error, UserMemError::Unmapped(_)));
    assert_eq!(dst, [0x55; 16]);
}

#[test]
fn cross_page_write_failure_does_not_partially_modify_user_memory() {
    let mut mem = rwx_page(MockUserMemory::new(), 0x4000_0000, &[0xAA; 4096]);

    let error = mem
        .copy_to_user(VirtAddr::new(0x4000_0FF8), &[0x55; 16])
        .unwrap_err();

    assert!(matches!(error, UserMemError::Unmapped(_)));
    let mut tail = [0u8; 8];
    mem.copy_from_user(&mut tail, VirtAddr::new(0x4000_0FF8))
        .unwrap();
    assert_eq!(tail, [0xAA; 8]);
}

#[test]
fn overflowing_range_is_rejected_before_page_lookup() {
    let mut mem = MockUserMemory::new();
    let mut dst = [0u8; 16];
    let address = VirtAddr::new(0x0000_7FFF_FFFF_FFF8);

    let error = mem.copy_from_user(&mut dst, address).unwrap_err();

    assert!(matches!(error, UserMemError::BadRange(_, 16)));
}
