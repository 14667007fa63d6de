//! Page tables.

use axiomos::arch::exceptions::{
    abort_packet, classify, cow_allocated, cow_begin, cow_copied, cow_counted, cow_page, cow_plan,
    cow_remap, decode_data_abort, handle_sync_exception, hex_nibble, hex_u32, hex_u64,
    invalid_packet, permission_fault_resolved, probed_address, unhandled_packet, CowError, CowPlan,
    CowStep, DataAbort, DataFaultCode, Fatal, SyncAction, SyncException, Syndrome,
};
use axiomos::arch::mm::{
    boot_memory, create_user_address_space, setup_kernel_page_tables, BootPageTables, BootPlaces,
    Platform,
};
use axiomos::arch::paging::{
    va_to_indices, MapError, PageTable, PageTableEntry, PageTableFlags, PageTableWalker,
    TableMemory, PAGE_SIZE,
};

fn flags() -> PageTableFlags {
    let mut flags = PageTableFlags::empty();
    flags.present = true;
    flags.writable = true;
    flags
}

fn memory(frames: u64) -> TableMemory {
    let mut memory = TableMemory::new();
    for i in (0..frames).rev() {
        assert!(memory.donate(0x10_0000 + i * PAGE_SIZE));
    }
    memory
}

#[test]
fn flags_survive_the_entry() {
    let mut all = flags();
    all.no_execute = true;
    all.user_accessible = true;
    all.copy_on_write = true;
    all.writable = false;
    assert_eq!(PageTableFlags::from_pte_bits(all.to_pte_bits()), all);
    assert_eq!(flags().to_pte_bits(), 0x70B);
    let mut device = flags();
    device.mmio_device = true;
    assert_eq!(device.to_pte_bits(), 0x707);
    assert_eq!(PageTableFlags::empty().to_pte_bits(), 0x80);
}

#[test]
fn entries_tell_their_kind() {
    let table = PageTableEntry::table(0x1234_5000);
    assert!(table.is_valid() && table.is_table() && !table.is_block());
    assert_eq!(table.addr(), 0x1234_5000);
    let block = PageTableEntry::block(0x4000_0000, 0x70B);
    assert!(block.is_valid() && block.is_block() && !block.is_table());
    assert_eq!(block.raw(), 0x4000_0709);
    let mut entry = PageTableEntry::page(0x5000, 0x70B);
    assert_eq!(entry.raw(), 0x570B);
    entry.clear();
    assert!(!entry.is_valid());
    entry.set(3);
    assert!(entry.is_table());
    assert_eq!(PageTableEntry::empty().raw(), 0);
}

#[test]
fn tables_are_changed_in_place() {
    let mut table = PageTable::empty();
    table.entry_mut(7).set(0x703);
    assert_eq!(table.entry(7).raw(), 0x703);
    table.put(8, PageTableEntry::page(0x1000, 3));
    assert_eq!(table.entry(8).raw(), 0x1003);
    table.zero();
    assert_eq!(table.entry(7).raw(), 0);
}

#[test]
fn indices_are_the_digits_of_the_page() {
    assert_eq!(va_to_indices(0xFFFF_8000_0000_0000), [256, 0, 0, 0]);
    assert_eq!(va_to_indices(0x0000_0080_4060_3FFF), [1, 1, 3, 3]);
}

#[test]
fn mapped_page_translates_and_others_do_not() {
    let mut memory = memory(8);
    let root = memory.new_root().unwrap();
    let walker = PageTableWalker::new(root);
    assert_eq!(walker.root_phys(), root);
    assert_eq!(walker.map_page(&mut memory, 0x40_3000, 0x9000, flags().to_pte_bits()), Ok(()));
    assert_eq!(walker.translate(&memory, 0x40_3ABC), Some(0x9ABC));
    assert_eq!(walker.translate_full(&memory, 0x40_3000), Some((0x9000, 0x970B)));
    assert_eq!(walker.translate(&memory, 0x40_4000), None);
    assert_eq!(walker.translate(&memory, 0x80_0000_0000), None);
    assert_eq!(
        walker.map_page(&mut memory, 0x40_3000, 0xA000, flags().to_pte_bits()),
        Err(MapError::PageAlreadyMapped)
    );
    assert_eq!(walker.unmap_page(&mut memory, 0x40_3000), Ok(0x9000));
    assert_eq!(walker.translate(&memory, 0x40_3ABC), None);
    assert_eq!(walker.unmap_page(&mut memory, 0x40_3000), Err(MapError::PageNotMapped));
    assert_eq!(walker.unmap_page(&mut memory, 0x80_0000), Err(MapError::L3TableNotPresent));
    assert_eq!(walker.unmap_page(&mut memory, 0x4000_0000), Err(MapError::L2TableNotPresent));
    assert_eq!(walker.unmap_page(&mut memory, 0x80_0000_0000), Err(MapError::L1TableNotPresent));
}

#[test]
fn blocks_translate_and_stand_in_the_way() {
    let mut memory = memory(8);
    let root = memory.new_root().unwrap();
    let walker = PageTableWalker::new(root);
    let bits = flags().to_pte_bits();
    assert_eq!(walker.map_l1_block(&mut memory, 0x4000_0000, 0x8000_0000, bits), Ok(()));
    assert_eq!(walker.translate(&memory, 0x4123_4567), Some(0x8123_4567));
    assert_eq!(
        walker.map_l1_block(&mut memory, 0x4000_0000, 0, bits),
        Err(MapError::L1AlreadyMapped)
    );
    assert_eq!(
        walker.map_l1_block(&mut memory, 0x4000_1000, 0, bits),
        Err(MapError::NotAlignedTo1GiB)
    );
    assert_eq!(walker.map_page(&mut memory, 0x4000_0000, 0, bits), Err(MapError::EntryIsBlock));
    assert_eq!(walker.map_l2_block(&mut memory, 0x20_0000, 0x40_0000, bits), Ok(()));
    assert_eq!(walker.translate(&memory, 0x20_1234), Some(0x40_1234));
    assert_eq!(
        walker.map_l2_block(&mut memory, 0x20_0000, 0, bits),
        Err(MapError::L2AlreadyMapped)
    );
    assert_eq!(
        walker.map_l2_block(&mut memory, 0x1000, 0, bits),
        Err(MapError::NotAlignedTo2MiB)
    );
}

#[test]
fn mapping_needs_frames_for_its_tables() {
    let mut memory = memory(3);
    let root = memory.new_root().unwrap();
    let walker = PageTableWalker::new(root);
    let bits = flags().to_pte_bits();
    assert_eq!(walker.map_page(&mut memory, 0x1000, 0x1000, bits), Err(MapError::OutOfMemory));
    assert_eq!(walker.translate(&memory, 0x1000), None);
    assert!(memory.donate(0x20_0000));
    assert!(!memory.donate(0x20_0000));
    assert!(!memory.donate(root));
    assert!(!memory.donate(0x123));
    assert_eq!(walker.map_page(&mut memory, 0x1000, 0x1000, bits), Ok(()));
}

#[test]
fn ranges_are_mapped_page_by_page() {
    let mut memory = memory(8);
    let root = memory.new_root().unwrap();
    let walker = PageTableWalker::new(root);
    let bits = flags().to_pte_bits();
    assert_eq!(walker.map_range(&mut memory, 0x1F_F000, 0x5000, 0x1001, bits), Ok(()));
    assert_eq!(walker.translate(&memory, 0x1F_F010), Some(0x5010));
    assert_eq!(walker.translate(&memory, 0x20_0FFF), Some(0x6FFF));
    assert_eq!(walker.translate(&memory, 0x20_1000), None);
    assert_eq!(
        walker.map_range(&mut memory, 0x1F_E000, 0x9000, 0x2000, bits),
        Err(MapError::PageAlreadyMapped)
    );
    assert_eq!(walker.translate(&memory, 0x1F_E000), Some(0x9000));
}

#[test]
fn boot_tables_map_memory_to_itself() {
    let BootPageTables { l0_user, l0_kernel, l1_low, l1_high } =
        setup_kernel_page_tables(6 << 30, Platform::Virt, 0x3000, 0x4000);
    assert_eq!(l0_user.entry(0).raw(), 0x3003);
    assert_eq!(l0_kernel.entry(0).raw(), 0x3003);
    assert_eq!(l0_kernel.entry(256).raw(), 0x4003);
    assert_eq!(l1_low.entry(0).raw(), 0x60_0000_0000_0705);
    assert_eq!(l1_low.entry(5).raw(), (5 << 30) | 0x709);
    assert!(!l1_low.entry(6).is_valid());
    assert_eq!(l1_high.entry(5).raw(), l1_low.entry(5).raw());
    let small = setup_kernel_page_tables(1, Platform::Rpi5, 0x3000, 0x4000);
    assert!(small.l1_low.entry(3).is_valid());
    assert!(!small.l1_low.entry(4).is_valid());
    assert_eq!(small.l1_low.entry(0).raw(), 0x709);
    assert_eq!(small.l1_low.entry(65).raw(), (65 << 30) | 0x60_0000_0000_0705);
    assert_eq!(small.l1_high.entry(124).raw(), (124 << 30) | 0x60_0000_0000_0705);
}

#[test]
fn user_space_holds_the_kernel_and_the_devices() {
    let tables = setup_kernel_page_tables(4 << 30, Platform::Virt, 0x3000, 0x4000);
    let kernel = *tables.l1_low.entry(1);
    let mut memory = memory(22);
    let root = create_user_address_space(&mut memory, kernel, Platform::Virt).unwrap();
    let walker = PageTableWalker::new(root);
    for va in [0u64, 0x1FF_FFFF, 0x0900_0ABC, 0x0801_FFFF, 0x0a00_3FFF, 0x4008_0000] {
        assert_eq!(walker.translate(&memory, va), Some(va), "{va:#x}");
    }
    for va in [0x200_0000u64, 0x0900_1000, 0x0802_0000, 0x0a00_4000, 0x8000_0000] {
        assert_eq!(walker.translate(&memory, va), None, "{va:#x}");
    }
}

#[test]
fn user_space_of_the_pi_reaches_its_devices() {
    let tables = setup_kernel_page_tables(4 << 30, Platform::Rpi5, 0x3000, 0x4000);
    let kernel = *tables.l1_low.entry(1);
    let mut memory = memory(26);
    let root = create_user_address_space(&mut memory, kernel, Platform::Rpi5).unwrap();
    let walker = PageTableWalker::new(root);
    for va in [0x10_7D00_1FFFu64, 0x10_7FFF_9000, 0x10_8001_9FFF, 0x1F_000D_0000] {
        assert_eq!(walker.translate(&memory, va), Some(va), "{va:#x}");
    }
    assert_eq!(walker.translate(&memory, 0x10_8001_A000), None);
    assert_eq!(walker.translate(&memory, 0x0800_0000), None);
}

#[test]
fn user_space_needs_all_its_frames() {
    let kernel = PageTableEntry::block(0x4000_0000, 0x709);
    for frames in [0, 1, 2, 5, 18, 19, 20, 21] {
        let mut memory = memory(frames);
        assert_eq!(create_user_address_space(&mut memory, kernel, Platform::Virt), None);
        assert_eq!(memory.new_root(), None);
    }
    for frames in [22, 24, 25] {
        let mut memory = memory(frames);
        assert_eq!(create_user_address_space(&mut memory, kernel, Platform::Rpi5), None);
        assert_eq!(memory.new_root(), None);
    }
    // What is too much stays free, from the first on.
    let mut memory = memory(24);
    assert!(create_user_address_space(&mut memory, kernel, Platform::Virt).is_some());
    assert_eq!(memory.new_root(), Some(0x10_0000 + 22 * PAGE_SIZE));
    assert_eq!(memory.new_root(), Some(0x10_0000 + 23 * PAGE_SIZE));
    assert_eq!(memory.new_root(), None);
}

#[test]
fn boot_roots_share_the_low_table() {
    let places =
        BootPlaces { l0_user: 0x1000, l0_kernel: 0x2000, l1_low: 0x3000, l1_high: 0x4000 };
    let mut memory = boot_memory(6 << 30, Platform::Virt, places);
    let user = PageTableWalker::new(places.l0_user);
    let kernel = PageTableWalker::new(places.l0_kernel);
    let va = 0x1_2345_6789;
    let high = 0xFFFF_8000_0000_0000 + va;
    assert_eq!(user.translate(&memory, va), Some(va));
    assert_eq!(kernel.translate(&memory, va), Some(va));
    assert_eq!(kernel.translate(&memory, high), Some(va));
    assert_eq!(user.translate(&memory, high), None);

    // What is mapped below the shared table is seen from both roots.
    for i in 0..4 {
        assert!(memory.donate(0x10_0000 + i * PAGE_SIZE));
    }
    assert!(!memory.donate(0x3000));
    let far = 7 << 30;
    assert_eq!(kernel.map_page(&mut memory, far, 0x5000, flags().to_pte_bits()), Ok(()));
    assert_eq!(kernel.translate(&memory, far), Some(0x5000));
    assert_eq!(user.translate(&memory, far), Some(0x5000));
    // What is mapped beside it is seen from one.
    let beyond = 1 << 39;
    assert_eq!(
        kernel.map_l1_block(&mut memory, beyond, 0x4000_0000, flags().to_pte_bits()),
        Ok(())
    );
    assert_eq!(kernel.translate(&memory, beyond), Some(0x4000_0000));
    assert_eq!(user.translate(&memory, beyond), None);
    assert_eq!(kernel.translate(&memory, high), Some(va));
}

#[test]
fn written_shared_page_becomes_private() {
    let mut memory = memory(8);
    let root = memory.new_root().unwrap();
    let walker = PageTableWalker::new(root);
    let mut shared = flags();
    shared.writable = false;
    shared.copy_on_write = true;
    shared.user_accessible = true;
    walker.map_page(&mut memory, 0x7000, 0x9000, shared.to_pte_bits()).unwrap();
    walker.map_page(&mut memory, 0x8000, 0xA000, flags().to_pte_bits()).unwrap();

    assert_eq!(cow_page(&walker, &memory, 0x7123, false), Ok(None));
    assert_eq!(cow_page(&walker, &memory, 0x8123, true), Ok(None));
    assert_eq!(cow_page(&walker, &memory, 0x6000, true), Err(CowError::NotMapped));
    let cow = cow_page(&walker, &memory, 0x7123, true).unwrap().unwrap();
    assert_eq!((cow.page, cow.frame), (0x7000, 0x9000));
    assert_eq!(cow_plan(Some(1)), CowPlan::InPlace);
    assert_eq!(cow_plan(Some(2)), CowPlan::Copy);
    assert_eq!(cow_plan(None), CowPlan::Copy);

    assert_eq!(cow_remap(&walker, &mut memory, cow, 0xB000, CowError::RemapFailed), Ok(()));
    let (addr, entry) = walker.translate_full(&memory, 0x7123).unwrap();
    assert_eq!(addr, 0xB123);
    let now = PageTableFlags::from_pte_bits(entry);
    assert!(now.writable && now.user_accessible && !now.copy_on_write);
    assert_eq!(walker.translate(&memory, 0x8123), Some(0xA123));

    let mut absent = cow;
    absent.page = 0x6000;
    assert_eq!(
        cow_remap(&walker, &mut memory, absent, 0xC000, CowError::UpgradeFailed),
        Err(CowError::UpgradeFailed)
    );
    assert!(permission_fault_resolved(Ok(true)));
    assert!(!permission_fault_resolved(Ok(false)));
    assert!(!permission_fault_resolved(Err(CowError::OutOfMemory)));
}

#[test]
fn exceptions_are_told_apart() {
    assert_eq!(classify(0x15 << 26), SyncException::SystemCall);
    assert_eq!(classify(0x20 << 26), SyncException::InstructionAbort);
    assert_eq!(classify((0x25 << 26) | (1 << 25) | 0x4F), SyncException::DataAbort { iss: 0x4F });
    assert_eq!(classify(0x3C << 26), SyncException::Unknown { class: 0x3C });
    let kernel = 0xFFFF_8000_0000_0000;
    assert_eq!(decode_data_abort(kernel, 0x07), DataAbort::KernelPageFault);
    assert_eq!(decode_data_abort(0x1000, 0x04), DataAbort::UserPageFault);
    assert_eq!(decode_data_abort(kernel, 0x4F), DataAbort::KernelPermissionFault);
    assert_eq!(decode_data_abort(0x1000, 0x4F), DataAbort::UserPermissionFault { write: true });
    assert_eq!(decode_data_abort(0x1000, 0x0D), DataAbort::UserPermissionFault { write: false });
    assert_eq!(decode_data_abort(0x1000, 0x21), DataAbort::Alignment);
    assert_eq!(decode_data_abort(0x1000, 0x10), DataAbort::ExternalAbort);
    assert_eq!(
        decode_data_abort(0x1000, 0x0A),
        DataAbort::AccessFlag(DataFaultCode::AccessFlagFaultL2)
    );
    assert_eq!(decode_data_abort(0x1000, 0x3F), DataAbort::Unknown { status: 0x3F });
    assert_eq!(DataFaultCode::from_iss(0x08), None);
}

#[test]
fn telemetry_is_written_in_digits() {
    assert_eq!(hex_nibble(0xA7), b'7');
    assert_eq!(hex_nibble(0x7A), b'A');
    assert_eq!(hex_u32(0x00AB_CDEF), b"00ABCDEF");
    assert_eq!(hex_u64(0x0123_4567_89AB_CDEF), b"0123456789ABCDEF");
    assert_eq!(
        abort_packet(0x10, 0x20, 0x4F),
        b"X0000000000000010Y0000000000000020WZ4F"
    );
    assert_eq!(abort_packet(0x10, 0x20, 0x0F)[34], b'R');
    assert_eq!(invalid_packet(3, 0x1C), b"N3C");
    let syndrome = Syndrome { esr: 0x3C << 26, elr: 1, far: 2, spsr: 3 };
    let packet = unhandled_packet(syndrome, 4, Some(5), 6, 7, 8);
    assert_eq!(
        packet,
        b"Y3CE0000000000000001R00000000F0000000P0000000000000003F0000000000000002T0000000000000004\
          Q0000000000000005I00000006J00000007S0000000000000008!"
    );
    assert_eq!(unhandled_packet(syndrome, 4, None, 6, 7, 8).len(), packet.len() - 17);
    assert_eq!(probed_address(0x1, 0x1234), None);
    assert_eq!(probed_address(0xFF00_0000_8765_4F00, 0x1234), Some(0x8765_4234));
}

#[test]
fn synchronous_exceptions_lead_somewhere() {
    assert_eq!(handle_sync_exception(0x15 << 26, 0), SyncAction::SystemCall);
    assert_eq!(
        handle_sync_exception(0x21 << 26, 0),
        SyncAction::Stop(Fatal::InstructionAbort)
    );
    assert_eq!(
        handle_sync_exception((0x24 << 26) | 0x4F, 0x7123),
        SyncAction::ResolveWrite { far: 0x7123, write: true }
    );
    assert_eq!(
        handle_sync_exception((0x24 << 26) | 0x4F, 0xFFFF_8000_0000_0000),
        SyncAction::Stop(Fatal::DataAbort(DataAbort::KernelPermissionFault))
    );
    assert_eq!(
        handle_sync_exception(0x3C << 26, 0),
        SyncAction::Stop(Fatal::Unhandled { class: 0x3C })
    );
}

#[test]
fn shared_page_is_copied_or_kept() {
    let mut memory = memory(8);
    let root = memory.new_root().unwrap();
    let walker = PageTableWalker::new(root);
    let mut shared = flags();
    shared.writable = false;
    shared.copy_on_write = true;
    walker.map_page(&mut memory, 0x7000, 0x9000, shared.to_pte_bits()).unwrap();
    walker.map_page(&mut memory, 0x8000, 0xA000, shared.to_pte_bits()).unwrap();
    assert_eq!(cow_begin(&walker, &memory, 0x7123, false), CowStep::Done(false));
    assert_eq!(cow_begin(&walker, &memory, 0x6000, true), CowStep::Failed(CowError::NotMapped));

    let cow = match cow_begin(&walker, &memory, 0x7123, true) {
        CowStep::CountReferences(cow) => cow,
        other => panic!("unexpected {other:?}"),
    };
    assert_eq!(cow_counted(&walker, &mut memory, cow, Some(2)), CowStep::AllocateFrame(cow));
    assert_eq!(cow_allocated(cow, None), CowStep::Failed(CowError::OutOfMemory));
    assert_eq!(cow_allocated(cow, Some(0xB000)), CowStep::CopyFrame { cow, to: 0xB000 });
    assert_eq!(
        cow_copied(&walker, &mut memory, cow, 0xB000),
        CowStep::ReleaseFrame { frame: 0x9000 }
    );
    assert_eq!(walker.translate(&memory, 0x7123), Some(0xB123));
    assert_eq!(cow_begin(&walker, &memory, 0x7123, true), CowStep::Done(false));

    let own = match cow_begin(&walker, &memory, 0x8000, true) {
        CowStep::CountReferences(cow) => cow,
        other => panic!("unexpected {other:?}"),
    };
    assert_eq!(cow_counted(&walker, &mut memory, own, Some(1)), CowStep::Done(true));
    assert_eq!(walker.translate(&memory, 0x8123), Some(0xA123));
    let mut absent = own;
    absent.page = 0x6000;
    assert_eq!(
        cow_counted(&walker, &mut memory, absent, Some(1)),
        CowStep::Failed(CowError::UpgradeFailed)
    );
    assert_eq!(
        cow_copied(&walker, &mut memory, absent, 0xC000),
        CowStep::Failed(CowError::RemapFailed)
    );
}

#[test]
fn address_spaces_are_kept_apart() {
    let mut memory = memory(60);
    let kernel = PageTableEntry::block(0x4000_0000, 0x709);
    let first = create_user_address_space(&mut memory, kernel, Platform::Virt).unwrap();
    let one = PageTableWalker::new(first);
    let bits = flags().to_pte_bits();
    one.map_page(&mut memory, 0x1_0000_0000, 0x5000, bits).unwrap();
    let second = create_user_address_space(&mut memory, kernel, Platform::Virt).unwrap();
    let two = PageTableWalker::new(second);
    assert_eq!(one.translate(&memory, 0x1_0000_0123), Some(0x5123));
    assert_eq!(two.translate(&memory, 0x1_0000_0123), None);
    two.map_page(&mut memory, 0x1_0000_0000, 0x6000, bits).unwrap();
    assert_eq!(one.translate(&memory, 0x1_0000_0123), Some(0x5123));
    assert_eq!(one.unmap_page(&mut memory, 0x1_0000_0000), Ok(0x5000));
    assert_eq!(two.translate(&memory, 0x1_0000_0123), Some(0x6123));
}
