//! Error numbers, flags, addresses and file status.

use axiomos::abi::{
    Errno, MapFlags, ProtFlags, UserspacePtr, MAP_ANONYMOUS, MAP_FIXED, MAP_PRIVATE, PROT_EXEC,
    PROT_READ, PROT_WRITE,
};
use axiomos::acpi::{
    map_physical_region, mapped_segment, plan_mapping, unmap_physical_region, virtual_start,
};
use axiomos::arch::paging::{MapError, PageTableFlags, PageTableWalker, TableMemory};
use axiomos::link::codec::{decode_msg, encode, Decoder, LinkError, Msg, MAX_FRAME, T_ESTOP};
use axiomos::time::convert::counter_to_ns;
use axiomos::usermem::{MockPageEntry, MockUserMemory, UserMemError, UserMemory};
use axiomos::vfs::error::{FsError, MkdirError, ReadError, RmdirError, StatError, WriteError};
use axiomos::vfs::path::{AbsoluteOwnedPath, OwnedPath, Path, PathNotAbsoluteError};
use axiomos::vfs::stat::{FileType, Stat};
use axiomos::vmem::addr::{Page, PageRangeInclusive, Size2MiB, Size4KiB, VirtAddr};
use axiomos::vmem::segment::Segment;

#[test]
fn error_numbers_are_those_of_the_system() {
    for (errno, code) in [
        (Errno::ENOENT, 2),
        (Errno::EIO, 5),
        (Errno::EBADF, 9),
        (Errno::ENOMEM, 12),
        (Errno::EACCES, 13),
        (Errno::EFAULT, 14),
        (Errno::EEXIST, 17),
        (Errno::ENOTDIR, 20),
        (Errno::EISDIR, 21),
        (Errno::EINVAL, 22),
        (Errno::EMFILE, 24),
        (Errno::ESPIPE, 29),
        (Errno::EPIPE, 32),
        (Errno::ERANGE, 34),
        (Errno::ENAMETOOLONG, 36),
        (Errno::ENOTEMPTY, 39),
        (Errno::EOVERFLOW, 75),
        (Errno::EOPNOTSUPP, 95),
    ] {
        assert_eq!(errno.code(), code);
    }
}

#[test]
fn flag_words_survive_both_ways() {
    for bits in 0..8 {
        assert_eq!(ProtFlags::from_bits(bits).map(|flags| flags.bits()), Some(bits));
    }
    assert_eq!(ProtFlags::from_bits(8), None);
    assert_eq!(ProtFlags::from_bits(-1), None);
    assert_eq!(PROT_READ | PROT_WRITE | PROT_EXEC, 7);
    let all = MAP_PRIVATE | MAP_FIXED | MAP_ANONYMOUS;
    assert_eq!(MapFlags::from_bits(all).map(|flags| flags.bits()), Some(all));
    assert_eq!(MapFlags::from_bits(1), None);
}

#[test]
fn user_pointers_stay_in_user_space() {
    assert!(UserspacePtr::try_from_usize(0).unwrap().is_null());
    assert_eq!(UserspacePtr::try_from_usize(1 << 47), Err(Errno::EINVAL));
    let last = UserspacePtr::try_from_usize((1 << 47) - 1).unwrap();
    assert_eq!(last.validate_range(1), Ok(()));
    assert!(last.validate_range(2).is_err());
    assert!(last.validate_range(usize::MAX).is_err());
}

#[test]
fn user_memory_errors_are_faults() {
    for error in [
        UserMemError::Null,
        UserMemError::Unmapped(VirtAddr::new(1)),
        UserMemError::TooLong(2, 1),
    ] {
        assert_eq!(Errno::from(error), Errno::EFAULT);
    }
    let mut memory = MockUserMemory::with_user_end(0x2000);
    memory.map_page(VirtAddr::new(0x1000), MockPageEntry { readable: true, writable: true });
    assert_eq!(memory.copy_to_user(VirtAddr::new(0x1FFF), b"x"), Ok(()));
    assert_eq!(
        memory.copy_to_user(VirtAddr::new(0x1FFF), b"xy"),
        Err(UserMemError::BadRange(VirtAddr::new(0x1FFF), 2))
    );
}

#[test]
fn every_message_survives_the_wire() {
    for msg in [
        Msg::MotorSetpoint { seq: 255, left: i16::MIN, right: i16::MAX },
        Msg::Estop { assert: true },
        Msg::HeartbeatToShrike { seq: u16::MAX },
        Msg::SafeBarrier { session: 1, correlation: u64::MAX, sequence: 3 },
        Msg::SessionOffer { session: 0x7E7E_7E7E },
        Msg::Requalify { session: 5 },
        Msg::Sensor { ultrasonic_echo_us: 1, estop_line: true, flags: 2 },
        Msg::HeartbeatToPi { seq: 9 },
        Msg::SafeAck { session: 1, correlation: 2, sequence: 3 },
        Msg::SessionReady { session: 7 },
        Msg::Prepared { session: 8 },
    ] {
        let mut buf = [0u8; MAX_FRAME];
        let len = encode(&msg, &mut buf).unwrap();
        let mut decoder = Decoder::new();
        for byte in &buf[..len - 1] {
            assert_eq!(decoder.push(*byte), None);
        }
        assert_eq!(decoder.push(buf[len - 1]), Some(Ok(msg)));
        assert_eq!(decode_msg(buf[2], &buf[4..len - 2]), Ok(msg));
    }
    assert_eq!(decode_msg(T_ESTOP, &[]), Err(LinkError::BadLen));
    assert_eq!(decode_msg(0x40, &[]), Err(LinkError::UnknownType));
}

#[test]
fn file_system_errors_are_passed_on() {
    assert_eq!(ReadError::from(FsError::InvalidHandle), ReadError::FsError(FsError::InvalidHandle));
    assert_eq!(
        WriteError::from(FsError::FileSystemNotOpen),
        WriteError::FsError(FsError::FileSystemNotOpen)
    );
    assert_eq!(StatError::from(FsError::InvalidHandle), StatError::FsError(FsError::InvalidHandle));
    assert_eq!(
        MkdirError::from(FsError::InvalidHandle),
        MkdirError::FsError(FsError::InvalidHandle)
    );
    assert_eq!(
        RmdirError::from(FsError::InvalidHandle),
        RmdirError::FsError(FsError::InvalidHandle)
    );
    assert_eq!(Stat::default(), Stat { size: 0, file_type: FileType::Regular });
}

#[test]
fn absolute_paths_stay_absolute() {
    assert_eq!(
        AbsoluteOwnedPath::try_new(OwnedPath::new("a/b")).err(),
        Some(PathNotAbsoluteError)
    );
    let mut path = AbsoluteOwnedPath::try_new(OwnedPath::new("/a")).unwrap();
    path.push("b");
    assert_eq!(path.as_str(), "/a/b");
    assert_eq!(Path::new("/a/b").file_name(), Some("b"));
    assert_eq!(Path::new("/a/b").parent().map(|parent| parent.as_str()), Some("/a"));
    assert!(!Path::new("a").is_absolute());
    assert!(Path::new("").is_empty());
}

#[test]
fn addresses_are_aligned() {
    let addr = VirtAddr::new(0x1234);
    assert_eq!(addr.align_down(0x1000), VirtAddr::new(0x1000));
    assert_eq!(addr.align_up(0x1000), VirtAddr::new(0x2000));
    assert!(!addr.is_aligned(0x1000));
    assert_eq!((addr + 4) - addr, 4);
    assert_eq!(addr - 4u64, VirtAddr::new(0x1230));
    assert_eq!(VirtAddr::try_new(7), Ok(VirtAddr::new(7)));
    assert_eq!(addr.as_usize(), 0x1234);
    assert_eq!(
        Page::<Size2MiB>::containing_address(VirtAddr::new(0x3F_FFFF)).start_address(),
        VirtAddr::new(0x20_0000)
    );
    assert!(Page::<Size4KiB>::from_start_address(VirtAddr::new(0x1001)).is_err());
    assert_eq!(Page::<Size4KiB>::from_start_address(VirtAddr::new(0x1000)).unwrap().size(), 4096);
    let mut pages = PageRangeInclusive::<Size4KiB>::from(&Segment::new(VirtAddr::new(0xFFF), 2));
    assert_eq!(pages.next().map(|page| page.start_address()), Some(VirtAddr::new(0)));
    assert_eq!(pages.next().map(|page| page.start_address()), Some(VirtAddr::new(0x1000)));
    assert!(pages.next().is_none());
    // The range of an empty segment ends with the page before its start, or with
    // the page of its start.
    let mut pages = PageRangeInclusive::<Size4KiB>::from(&Segment::new(VirtAddr::new(0x3000), 0));
    assert_eq!(pages.end.start_address(), VirtAddr::new(0x2000));
    assert!(pages.next().is_none());
    let mut pages = PageRangeInclusive::<Size4KiB>::from(&Segment::new(VirtAddr::new(0x3001), 0));
    assert_eq!(pages.next().map(|page| page.start_address()), Some(VirtAddr::new(0x3000)));
    assert!(pages.next().is_none());
    // A start inside a page is rounded after the first step.
    let inside = Page { start_address: VirtAddr::new(0x1234), size: core::marker::PhantomData };
    let last = Page::<Size4KiB>::containing_address(VirtAddr::new(0x2000));
    let mut pages = PageRangeInclusive { start: inside, end: last };
    assert_eq!(pages.next().map(|page| page.start_address()), Some(VirtAddr::new(0x1234)));
    assert_eq!(pages.next().map(|page| page.start_address()), Some(VirtAddr::new(0x2000)));
    assert!(pages.next().is_none());
}

#[test]
fn counter_readings_are_converted() {
    assert_eq!(counter_to_ns(54_000_001, 54_000_000), 1_000_000_018);
    assert_eq!(counter_to_ns(5, 0), 0);
    assert_eq!(counter_to_ns(40_000_000_020, 20_000_000_000), 2_000_000_001);
}

#[test]
fn firmware_tables_are_mapped_around() {
    let plan = plan_mapping(0x2ff0, 32, 16).unwrap();
    assert_eq!(plan.frames(), vec![0x2000, 0x3000]);
    let segment = Segment::new(VirtAddr::new(0x7000_0000), plan.mapped_len as u64);
    let start = virtual_start(segment, plan);
    assert_eq!(start, VirtAddr::new(0x7000_0ff0));
    assert_eq!(mapped_segment(start, plan.mapped_len as u64), segment);
}

#[test]
fn firmware_tables_are_seen_through_their_mapping() {
    let mut memory = TableMemory::new();
    for i in 0..6 {
        assert!(memory.donate(0x10_0000 + i * 0x1000));
    }
    let root = memory.new_root().unwrap();
    let walker = PageTableWalker::new(root);
    let plan = plan_mapping(0x2ff0, 32, 16).unwrap();
    let segment = Segment::new(VirtAddr::new(0x7000_0000), plan.mapped_len as u64);
    // Something is left at the second page.
    let mut flags = PageTableFlags::empty();
    flags.present = true;
    walker.map_page(&mut memory, 0x7000_1000, 0x9000, flags.to_pte_bits()).unwrap();
    walker.map_page(&mut memory, 0x7000_2000, 0xA000, flags.to_pte_bits()).unwrap();

    let start = map_physical_region(&walker, &mut memory, segment, plan).unwrap();
    assert_eq!(start, VirtAddr::new(0x7000_0ff0));
    assert_eq!(walker.translate(&memory, start.as_u64()), Some(0x2ff0));
    assert_eq!(walker.translate(&memory, start.as_u64() + 31), Some(0x300f));
    assert_eq!(walker.translate(&memory, 0x7000_2000), Some(0xA000));
    let (_, entry) = walker.translate_full(&memory, start.as_u64()).unwrap();
    assert!(PageTableFlags::from_pte_bits(entry).no_execute);

    let released = unmap_physical_region(&walker, &mut memory, start, plan.mapped_len as u64);
    assert_eq!(released, segment);
    assert_eq!(walker.translate(&memory, start.as_u64()), None);
    assert_eq!(walker.translate(&memory, 0x7000_2000), Some(0xA000));

    let mut empty = TableMemory::new();
    assert!(empty.donate(0x1000));
    let root = empty.new_root().unwrap();
    let walker = PageTableWalker::new(root);
    assert_eq!(
        map_physical_region(&walker, &mut empty, segment, plan),
        Err(MapError::OutOfMemory)
    );
}
