//! The kernel's own tables and the tables of a new user address space.

use vstd::prelude::*;

use crate::arch::paging::{
    empty_entries, entry_addr, entry_is_block, entry_is_table, flags_of, frame_address, index_at,
    law_flags_roundtrip, law_no_other_bits, law_present_bits, law_range_is_mapped,
    law_range_keeps_others, law_range_success, lemma_block_entry, lemma_child_lengthens,
    lemma_digits, lemma_entry_kinds, lemma_kept_twice, lemma_last_page, lemma_new_tree_keeps_all,
    lemma_others_kept, lemma_put_child_ways, lemma_put_entry, lemma_put_entry_ways,
    lemma_put_entry_wf, lemma_range_takes_iff, lemma_rights_in_entry, lemma_sharing,
    lemma_table_at_level, lemma_table_entry, lemma_tables_flat, lemma_way_facts, lookup, mapped_by,
    page_at, page_count, pte_bits, same_entry, shared_depth, span, table_at, tables_for, PageTable,
    PageTableEntry, PageTableFlags, PageTableWalker, TableMemory, TablesModel, L1_BLOCK_SIZE,
    PTE_AF, PTE_ATTR_DEVICE, PTE_ATTR_NORMAL, PTE_PXN, PTE_SH_INNER, PTE_TABLE, PTE_UXN, PTE_VALID,
};
use crate::platform::memory_map::{
    BCM2712_UART10_BASE_PHYS, GICC_BASE_PHYS, GICD_BASE_PHYS, RP1_PERIPHERAL_BASE_PHYS,
};

verus! {

/// The machine.
#[derive(Debug, Clone, Copy, PartialEq, Eq, Structural)]
pub enum Platform {
    /// The emulated board: devices in the first GiB, memory above.
    Virt,
    /// Raspberry Pi 5: memory from zero, devices high up.
    Rpi5,
}

// ---------------------------------------------------------------------------
// Boot tables
// ---------------------------------------------------------------------------

/// The tables that the kernel boots with.
pub struct BootPageTables {
    /// Identity mapping of low addresses.
    pub l0_user: PageTable,
    /// Kernel mapping of high addresses.
    pub l0_kernel: PageTable,
    pub l1_low: PageTable,
    pub l1_high: PageTable,
}

/// GiB that are mapped: all of memory, but at least 4 and at most 512.
pub open spec fn gib_mapped(total_memory: u64) -> int {
    let gib = (total_memory as int + 0x3FFF_FFFF) / 0x4000_0000;
    if gib < 4 {
        4
    } else if gib > 512 {
        512
    } else {
        gib
    }
}

/// Flags of a block of ordinary memory.
pub const MEMORY_BLOCK: u64 = PTE_VALID | PTE_AF | PTE_SH_INNER | PTE_ATTR_NORMAL;

/// Flags of a block of device registers.
pub const DEVICE_BLOCK: u64 = PTE_VALID | PTE_AF | PTE_SH_INNER | PTE_ATTR_DEVICE | PTE_UXN
    | PTE_PXN;

/// The block entry for the GiB `i`.
pub open spec fn gib_entry(i: int, flags: u64) -> u64 {
    (i * 0x4000_0000) as u64 | (flags & !PTE_TABLE) | PTE_VALID
}

/// A GiB of device registers.
pub open spec fn device_gib(platform: Platform, i: int) -> bool {
    match platform {
        Platform::Virt => i == 0,
        Platform::Rpi5 => i == BCM2712_UART10_BASE_PHYS as int / 0x4000_0000 || i
            == GICD_BASE_PHYS as int / 0x4000_0000 || i == GICC_BASE_PHYS as int / 0x4000_0000 || i
            == RP1_PERIPHERAL_BASE_PHYS as int / 0x4000_0000,
    }
}

/// The boot entry for the GiB `i`, low and high: devices of the board and
/// memory, each mapped to itself.
pub open spec fn boot_entry(platform: Platform, total_memory: u64, i: int) -> u64 {
    if device_gib(platform, i) {
        gib_entry(i, DEVICE_BLOCK)
    } else if i < gib_mapped(total_memory) {
        gib_entry(i, MEMORY_BLOCK)
    } else {
        0
    }
}

/// Build the boot tables. `l1_low_phys` and `l1_high_phys` are where the two
/// tables of level 1 will stand.
pub fn setup_kernel_page_tables(
    total_memory: u64,
    platform: Platform,
    l1_low_phys: u64,
    l1_high_phys: u64,
) -> (tables: BootPageTables)
    requires
        total_memory + 0x3FFF_FFFF <= u64::MAX,
    ensures
        tables.l0_user@ == empty_entries().update(0, l1_low_phys | PTE_VALID | PTE_TABLE),
        tables.l0_kernel@ == empty_entries().update(
            0,
            l1_low_phys | PTE_VALID | PTE_TABLE,
        ).update(256, l1_high_phys | PTE_VALID | PTE_TABLE),
        tables.l1_low@ == Seq::new(512, |i: int| boot_entry(platform, total_memory, i)),
        tables.l1_high@ == tables.l1_low@,
{
    let mut l0_user = PageTable::empty();
    let mut l0_kernel = PageTable::empty();
    let mut l1_low = PageTable::empty();
    let mut l1_high = PageTable::empty();
    l0_user.put(0, PageTableEntry::table(l1_low_phys));
    l0_kernel.put(0, PageTableEntry::table(l1_low_phys));
    l0_kernel.put(256, PageTableEntry::table(l1_high_phys));

    let gib: u64 = (total_memory + 0x3FFF_FFFF) / L1_BLOCK_SIZE;
    let gib_to_map: u64 = if gib < 4 {
        4
    } else if gib > 512 {
        512
    } else {
        gib
    };
    let mut i: u64 = 0;
    while i < gib_to_map
        invariant
            i <= gib_to_map <= 512,
            gib_to_map == gib_mapped(total_memory),
            l1_low@.len() == 512,
            l1_high@ == l1_low@,
            forall|k: int|
                0 <= k < 512 ==> #[trigger] l1_low@[k] == if k >= i {
                    0
                } else if platform == Platform::Virt && k == 0 {
                    gib_entry(k, DEVICE_BLOCK)
                } else {
                    gib_entry(k, MEMORY_BLOCK)
                },
        decreases gib_to_map - i,
    {
        let flags: u64 = match platform {
            Platform::Virt => if i == 0 {
                DEVICE_BLOCK
            } else {
                MEMORY_BLOCK
            },
            Platform::Rpi5 => MEMORY_BLOCK,
        };
        let entry = PageTableEntry::block(i * L1_BLOCK_SIZE, flags);
        l1_low.put(i as usize, entry);
        l1_high.put(i as usize, entry);
        i = i + 1;
    }
    match platform {
        Platform::Virt => {},
        Platform::Rpi5 => {
            let apertures: [u64; 4] = [
                BCM2712_UART10_BASE_PHYS,
                GICD_BASE_PHYS,
                GICC_BASE_PHYS,
                RP1_PERIPHERAL_BASE_PHYS,
            ];
            let mut k: usize = 0;
            while k < 4
                invariant
                    k <= 4,
                    platform == Platform::Rpi5,
                    apertures@ == seq![
                        BCM2712_UART10_BASE_PHYS,
                        GICD_BASE_PHYS,
                        GICC_BASE_PHYS,
                        RP1_PERIPHERAL_BASE_PHYS,
                    ],
                    l1_low@.len() == 512,
                    l1_high@ == l1_low@,
                    forall|j: int|
                        0 <= j < 512 ==> #[trigger] l1_low@[j] == if exists|a: int|
                            0 <= a < k && #[trigger] apertures@[a] as int / 0x4000_0000 == j {
                            gib_entry(j, DEVICE_BLOCK)
                        } else if j < gib_mapped(total_memory) {
                            gib_entry(j, MEMORY_BLOCK)
                        } else {
                            0
                        },
                decreases 4 - k,
            {
                let index: u64 = apertures[k] / L1_BLOCK_SIZE;
                assert(apertures@[k as int] as int / 0x4000_0000 == index);
                assert(index < 512);
                let entry = PageTableEntry::block(index * L1_BLOCK_SIZE, DEVICE_BLOCK);
                l1_low.put(index as usize, entry);
                l1_high.put(index as usize, entry);
                k = k + 1;
            }
            assert forall|j: int| 0 <= j < 512 implies (device_gib(platform, j) <==> exists|a: int|
                0 <= a < 4 && #[trigger] apertures@[a] as int / 0x4000_0000 == j) by {
                if device_gib(platform, j) {
                    assert(apertures@[0] as int / 0x4000_0000 == j || apertures@[1] as int
                        / 0x4000_0000 == j || apertures@[2] as int / 0x4000_0000 == j
                        || apertures@[3] as int / 0x4000_0000 == j);
                }
            }
        },
    }
    assert(l1_low@ =~= Seq::new(512, |i: int| boot_entry(platform, total_memory, i)));
    BootPageTables { l0_user, l0_kernel, l1_low, l1_high }
}

/// A block entry of the boot tables maps its GiB to itself.
proof fn lemma_gib_entry(i: int, flags: u64)
    requires
        0 <= i < 512,
        flags == MEMORY_BLOCK || flags == DEVICE_BLOCK,
    ensures
        entry_is_block(gib_entry(i, flags)),
        entry_addr(gib_entry(i, flags)) == i * 0x4000_0000,
{
    let addr = (i * 0x4000_0000) as u64;
    lemma_block_entry(addr, flags);
    assert((0x1u64 | 0x400 | 0x300 | 0x8) & 0x0000_FFFF_FFFF_F000 == 0 && (0x1u64 | 0x400 | 0x300
        | 0x4 | 0x40_0000_0000_0000 | 0x20_0000_0000_0000) & 0x0000_FFFF_FFFF_F000 == 0)
        by (bit_vector);
    assert((addr | (flags & !0x2u64) | 0x1) & 0x0000_FFFF_FFFF_F000 == addr) by (bit_vector)
        requires
            flags & 0x0000_FFFF_FFFF_F000 == 0,
            addr % 0x4000_0000 == 0,
            addr < 0x80_0000_0000,
    ;
}

/// Law: under the boot tables every mapped GiB is found at its own address, from
/// both roots, and at the same address in the upper half from the kernel's root.
pub proof fn law_boot_tables_are_identity(
    memory: Map<u64, Seq<u64>>,
    platform: Platform,
    total_memory: u64,
    l0_user: u64,
    l0_kernel: u64,
    l1_low: u64,
    l1_high: u64,
    va: u64,
)
    requires
        frame_address(l1_low),
        frame_address(l1_high),
        memory[l0_user] == empty_entries().update(0, l1_low | PTE_VALID | PTE_TABLE),
        memory[l0_kernel] == empty_entries().update(0, l1_low | PTE_VALID | PTE_TABLE).update(
            256,
            l1_high | PTE_VALID | PTE_TABLE,
        ),
        memory[l1_low] == Seq::new(512, |i: int| boot_entry(platform, total_memory, i)),
        memory[l1_high] == memory[l1_low],
        va as int / 0x4000_0000 < gib_mapped(total_memory) || (va < 0x80_0000_0000 && device_gib(
            platform,
            va as int / 0x4000_0000,
        )),
    ensures
        ({
            let found = Some((va as int, boot_entry(platform, total_memory, va as int / 0x4000_0000)));
            &&& lookup(memory, l0_user, va) == found
            &&& lookup(memory, l0_kernel, va) == found
            &&& lookup(memory, l0_kernel, (0xFFFF_8000_0000_0000 + va) as u64) == found
        }),
{
    let i = va as int / 0x4000_0000;
    let high = (0xFFFF_8000_0000_0000 + va) as u64;
    let entry = boot_entry(platform, total_memory, i);
    assert(0 <= i < 512 && va < 0x80_0000_0000);
    if device_gib(platform, i) {
        lemma_gib_entry(i, DEVICE_BLOCK);
    } else {
        lemma_gib_entry(i, MEMORY_BLOCK);
    }
    lemma_entry_kinds(entry);
    lemma_table_entry(l1_low);
    lemma_table_entry(l1_high);
    assert(index_at(va, 0) == 0 && index_at(va, 1) == i);
    assert(index_at(high, 0) == 256 && index_at(high, 1) == i);
    assert(memory[l1_low][i] == entry);
    assert(high as int % 0x4000_0000 == va as int % 0x4000_0000);
    reveal_with_fuel(crate::arch::paging::lookup_from, 3);
}

/// Where the boot tables stand.
#[derive(Debug, Clone, Copy, PartialEq, Eq, Structural)]
pub struct BootPlaces {
    pub l0_user: u64,
    pub l0_kernel: u64,
    pub l1_low: u64,
    pub l1_high: u64,
}

impl BootPlaces {
    /// Four frames.
    pub open spec fn wf(self) -> bool {
        &&& frame_address(self.l0_user) && frame_address(self.l0_kernel)
        &&& frame_address(self.l1_low) && frame_address(self.l1_high)
        &&& self.l0_user != self.l0_kernel && self.l0_user != self.l1_low
        &&& self.l0_user != self.l1_high && self.l0_kernel != self.l1_low
        &&& self.l0_kernel != self.l1_high && self.l1_low != self.l1_high
    }
}

/// Build the boot tables as table memory that walkers of both roots can use. The
/// roots share the low table.
pub fn boot_memory(total_memory: u64, platform: Platform, places: BootPlaces) -> (memory:
    TableMemory)
    requires
        total_memory + 0x3FFF_FFFF <= u64::MAX,
        places.wf(),
    ensures
        memory@.wf(),
        memory@.free == Seq::<u64>::empty(),
        memory@.is_root(places.l0_user),
        memory@.is_root(places.l0_kernel),
        ({
            let tables = memory@.tables;
            let low = places.l1_low | PTE_VALID | PTE_TABLE;
            &&& tables.dom() =~= set![places.l0_user, places.l0_kernel, places.l1_low, places.l1_high]
            &&& tables[places.l0_user] == empty_entries().update(0, low)
            &&& tables[places.l0_kernel] == empty_entries().update(0, low).update(
                256,
                places.l1_high | PTE_VALID | PTE_TABLE,
            )
            &&& tables[places.l1_low] == Seq::new(
                512,
                |i: int| boot_entry(platform, total_memory, i),
            )
            &&& tables[places.l1_high] == tables[places.l1_low]
        }),
{
    let boot = setup_kernel_page_tables(total_memory, platform, places.l1_low, places.l1_high);
    let mut memory = TableMemory::new();
    memory.adopt(places.l0_user, boot.l0_user, Ghost(0));
    memory.adopt(places.l0_kernel, boot.l0_kernel, Ghost(0));
    memory.adopt(places.l1_low, boot.l1_low, Ghost(1));
    memory.adopt(places.l1_high, boot.l1_high, Ghost(1));
    proof {
        let m = memory@;
        lemma_table_entry(places.l1_low);
        lemma_table_entry(places.l1_high);
        lemma_entry_kinds(0);
        assert forall|i: int| 0 <= i < 512 implies !entry_is_table(
            #[trigger] m.tables[places.l1_low][i],
        ) by {
            lemma_gib_entry(i, DEVICE_BLOCK);
            lemma_gib_entry(i, MEMORY_BLOCK);
            lemma_entry_kinds(boot_entry(platform, total_memory, i));
        }
        assert forall|t: u64, i: int| #[trigger] m.links(t, i) implies {
            ||| t == places.l0_user && i == 0
            ||| t == places.l0_kernel && i == 0
            ||| t == places.l0_kernel && i == 256
        } by {
            assert(m.tables[places.l1_high][i] == m.tables[places.l1_low][i]);
        }
    }
    memory
}

// ---------------------------------------------------------------------------
// User address spaces
// ---------------------------------------------------------------------------

/// Flags of the kernel's own window in a user address space.
pub open spec fn window_flags() -> u64 {
    pte_bits(
        PageTableFlags {
            present: true,
            writable: true,
            no_execute: false,
            user_accessible: false,
            mmio_device: false,
            copy_on_write: false,
        },
    )
}

/// Flags of device registers in a user address space.
pub open spec fn device_flags() -> u64 {
    pte_bits(
        PageTableFlags {
            present: true,
            writable: true,
            no_execute: true,
            user_accessible: false,
            mmio_device: true,
            copy_on_write: false,
        },
    )
}

/// Bytes of the kernel's window from address zero.
pub const WINDOW_SIZE: u64 = 0x0200_0000;

pub const UART_PAGE: u64 = 0x0900_0000;

pub const GIC_START: u64 = 0x0800_0000;

pub const GIC_SIZE: u64 = 0x2_0000;

pub const VIRTIO_START: u64 = 0x0a00_0000;

pub const VIRTIO_SIZE: u64 = 0x4000;

/// Bytes of the Pi 5 interrupt controller, distributor and processor interface.
pub const RPI5_GIC_SIZE: u64 = GICC_BASE_PHYS + 0x2_0000 - GICD_BASE_PHYS;

/// Pages of device registers in a user address space.
pub open spec fn device_page(platform: Platform, va: u64) -> bool {
    ||| UART_PAGE <= va < UART_PAGE + 0x1000
    ||| VIRTIO_START <= va < VIRTIO_START + VIRTIO_SIZE
    ||| platform == Platform::Virt && GIC_START <= va < GIC_START + GIC_SIZE
    ||| platform == Platform::Rpi5 && BCM2712_UART10_BASE_PHYS <= va < BCM2712_UART10_BASE_PHYS
        + 0x1000
    ||| platform == Platform::Rpi5 && GICD_BASE_PHYS <= va < GICD_BASE_PHYS + RPI5_GIC_SIZE
}

/// The page entry that maps the page of an address to itself.
pub open spec fn identity_page(va: u64, flags: u64) -> u64 {
    (va as int / 0x1000 * 0x1000) as u64 | flags
}

/// What a new user address space maps: the kernel's window and the devices to
/// themselves, the second GiB as the kernel has it, and nothing else.
pub open spec fn user_lookup(platform: Platform, kernel_entry: u64, va: u64) -> Option<(int, u64)> {
    if va < WINDOW_SIZE {
        mapped_by(identity_page(va, window_flags()), 3, va)
    } else if device_page(platform, va) {
        mapped_by(identity_page(va, device_flags()), 3, va)
    } else if va as int / 0x4000_0000 == 1 {
        mapped_by(kernel_entry, 1, va)
    } else if platform == Platform::Rpi5 && va as int / 0x4000_0000
        == RP1_PERIPHERAL_BASE_PHYS as int / 0x4000_0000 {
        mapped_by(RP1_PERIPHERAL_BASE_PHYS | (device_flags() & !PTE_TABLE) | PTE_VALID, 1, va)
    } else {
        None
    }
}

/// Frames that a new user address space takes for its tables.
pub open spec fn user_space_frames(platform: Platform) -> int {
    match platform {
        Platform::Virt => 22,
        Platform::Rpi5 => 26,
    }
}

/// How many frames a new user address space takes for its tables.
pub fn frames_for_user_space(platform: Platform) -> (frames: usize)
    ensures
        frames == user_space_frames(platform),
{
    match platform {
        Platform::Virt => 22,
        Platform::Rpi5 => 26,
    }
}

/// The free frames of `after` are those of `before` without some of the last.
spec fn takes_last(before: TablesModel, after: TablesModel) -> bool {
    &&& after.free.len() <= before.free.len()
    &&& after.free == before.free.subrange(0, after.free.len() as int)
}

proof fn lemma_takes_twice(a: TablesModel, b: TablesModel, c: TablesModel)
    requires
        takes_last(a, b),
        takes_last(b, c),
    ensures
        takes_last(a, c),
{
    assert(c.free =~= a.free.subrange(0, c.free.len() as int));
}

/// The outcome of mapping `n` unmapped pages to themselves.
spec fn identity_outcome(
    before: TablesModel,
    after: TablesModel,
    root: u64,
    start: int,
    n: int,
    flags: u64,
    ok: bool,
) -> bool {
    let need = tables_for(before, root, start, n as nat);
    &&& need >= 0
    &&& ok <==> need <= before.free.len()
    &&& ok ==> after.free.len() == before.free.len() - need
    &&& !ok ==> after.free.len() == 0
    &&& takes_last(before, after)
    &&& forall|va: u64|
        va < 0x1_0000_0000_0000 && (ok || !(start <= va < start + n * 4096)) ==> #[trigger] after.lookup(
            root,
            va,
        ) == if start <= va < start + n * 4096 {
            mapped_by(identity_page(va, flags), 3, va)
        } else {
            before.lookup(root, va)
        }
    &&& forall|va: u64, l: int|
        va < 0x1_0000_0000_0000 && 1 <= l <= 3 ==> {
            let s = span(l - 1) as int;
            let on = before.laid(root, va, l) || (start / s <= va as int / s && va as int / s <= (
            start + (n - 1) * 4096) / s);
            &&& #[trigger] after.laid(root, va, l) ==> on
            &&& ok && on ==> after.laid(root, va, l)
        }
}

/// Map unmapped pages to themselves.
fn map_identity(
    walker: &PageTableWalker,
    memory: &mut TableMemory,
    start: u64,
    size: u64,
    flags: u64,
)
    -> (ok: bool)
    requires
        old(memory)@.wf(),
        old(memory)@.is_root(walker.spec_root()),
        start % 4096 == 0,
        size % 4096 == 0,
        0 < size,
        start + size <= 0x1_0000_0000_0000,
        forall|va: u64|
            start <= va < start + size ==> #[trigger] old(memory)@.lookup(
                walker.spec_root(),
                va,
            ) is None,
    ensures
        final(memory)@.wf(),
        final(memory)@.is_root(walker.spec_root()),
        final(memory)@.keeps_others(old(memory)@, walker.spec_root()),
        identity_outcome(
            old(memory)@,
            final(memory)@,
            walker.spec_root(),
            start as int,
            size as int / 4096,
            flags,
            ok,
        ),
{
    let ghost before = memory@;
    let ghost root = walker.spec_root();
    let ghost n = page_count(size);
    let result = walker.map_range(memory, start, start, size, flags);
    proof {
        let after = memory@;
        let virt = start as int;
        assert(n == size as int / 4096);
        assert forall|i: int| 0 <= i < n implies before.lookup(
            root,
            #[trigger] page_at(virt, i),
        ) is None by {
            assert(page_at(virt, i) as int == virt + i * 4096);
        }
        law_range_success(before, after, root, virt, virt, n, flags, result);
        law_range_keeps_others(before, after, root, virt, virt, n, flags, result);
        assert(after.free =~= before.free.subrange(0, after.free.len() as int));
        if result is Ok {
            law_range_is_mapped(before, after, root, virt, virt, n, flags);
        }
        assert forall|va: u64|
            va < 0x1_0000_0000_0000 && (result is Ok || !(virt <= va < virt + n * 4096)) implies
            #[trigger] after.lookup(root, va) == if virt <= va < virt + n * 4096 {
                mapped_by(identity_page(va, flags), 3, va)
            } else {
                before.lookup(root, va)
            } by {
            lemma_last_page(va, virt, n);
            if virt <= va < virt + n * 4096 {
                let i = (va - virt) / 4096;
                assert(virt + i * 4096 == va as int / 0x1000 * 0x1000);
            }
        }
        assert forall|va: u64, l: int| va < 0x1_0000_0000_0000 && 1 <= l <= 3 implies ({
            let s = span(l - 1) as int;
            let on = before.laid(root, va, l) || (virt / s <= va as int / s && va as int / s <= (
            virt + (n - 1) * 4096) / s);
            &&& #[trigger] after.laid(root, va, l) ==> on
            &&& result is Ok && on ==> after.laid(root, va, l)
        }) by {
            lemma_range_takes_iff(va, virt, n as int, l);
        }
    }
    result.is_ok()
}

/// A top table whose first GiB is free and whose second is the kernel's.
fn user_root(memory: &mut TableMemory, kernel_entry: PageTableEntry) -> (result: Option<u64>)
    requires
        old(memory)@.wf(),
        !entry_is_table(kernel_entry.0),
    ensures
        final(memory)@.wf(),
        final(memory)@.keeps_all(old(memory)@),
        takes_last(old(memory)@, final(memory)@),
        match result {
            None => old(memory)@.free.len() < 2 && final(memory)@.free.len() == 0,
            Some(root) => {
                let after = final(memory)@;
                &&& !old(memory)@.tables.contains_key(root)
                &&& after.keeps_others(old(memory)@, root)
                &&& old(memory)@.free.len() >= 2
                &&& root == old(memory)@.free.last()
                &&& after.is_root(root)
                &&& after.free.len() == old(memory)@.free.len() - 2
                &&& forall|va: u64|
                    va < 0x1_0000_0000_0000 ==> #[trigger] after.lookup(root, va) == if va as int
                        / 0x4000_0000 == 1 {
                        mapped_by(kernel_entry.0, 1, va)
                    } else {
                        None
                    }
                &&& forall|va: u64, l: int|
                    va < 0x1_0000_0000_0000 && 1 <= l <= 3 ==> (#[trigger] after.laid(root, va, l)
                        <==> l == 1 && va < 0x80_0000_0000)
            },
        },
{
    let ghost start = memory@;
    let root: u64 = match memory.new_root() {
        Some(root) => root,
        None => {
            assert(memory@.free =~= start.free.subrange(0, memory@.free.len() as int));
            return None;
        },
    };
    let ghost bare = memory@;
    proof {
        lemma_entry_kinds(0);
        assert(bare.tables[root] == empty_entries());
        assert forall|va: u64| #[trigger] bare.lookup(root, va) is None by {
            assert(bare.tables[root][index_at(va, 0)] == 0);
        }
        assert forall|va: u64, l: int| 1 <= l <= 3 implies !#[trigger] bare.laid(root, va, l) by {
            assert(bare.tables[root][index_at(va, 0)] == 0);
            assert(table_at(bare.tables, root, va, 0) == Some(root));
            assert(table_at(bare.tables, root, va, 1) is None);
            assert(table_at(bare.tables, root, va, 2) is None);
        }
        assert(bare.tables[root][0] == 0);
    }
    let l1: u64 = match memory.get_or_create_table(root, 0, Ghost(root)) {
        Ok(table) => table,
        Err(_) => {
            assert(memory@.free =~= start.free.subrange(0, memory@.free.len() as int));
            proof {
                lemma_new_tree_keeps_all(start, memory@, root);
            }
            return None;
        },
    };
    let ghost linked = memory@;
    proof {
        let zero = 0u64;
        assert(index_at(0, 0) == 0);
        assert(table_at(bare.tables, root, 0, 0) == Some(root));
        lemma_child_lengthens(bare, root, 0, 0);
        let gib = 0x4000_0000u64;
        assert(index_at(gib, 0) == 0 && index_at(gib, 1) == 1);
        lemma_child_lengthens(bare, root, gib, 0);
        lemma_table_at_level(linked, root, gib, 1);
        assert(bare.free[bare.free.len() - 1] == bare.free.last());
        lemma_table_entry(bare.free.last());
        lemma_others_kept(bare, linked, root, gib, 0, 0);
        lemma_kept_twice(start, bare, linked, root);
    }
    memory.put(l1, 1, kernel_entry);
    proof {
        let gib = 0x4000_0000u64;
        let after = memory@;
        lemma_put_entry_wf(linked, l1, 1, kernel_entry.0);
        assert(after.free =~= start.free.subrange(0, after.free.len() as int));
        assert(linked.tables[l1][1] == 0);
        lemma_others_kept(linked, after, root, gib, 1, 1);
        lemma_kept_twice(start, linked, after, root);
        lemma_new_tree_keeps_all(start, after, root);
        assert forall|va: u64| va < 0x1_0000_0000_0000 implies #[trigger] after.lookup(root, va)
            == if va as int / 0x4000_0000 == 1 {
            mapped_by(kernel_entry.0, 1, va)
        } else {
            None
        } by {
            lemma_put_entry(linked, root, gib, 1, kernel_entry.0, va);
            lemma_sharing(va, gib);
            assert(linked.lookup(root, va) == bare.lookup(root, va));
        }
        assert forall|va: u64, l: int| va < 0x1_0000_0000_0000 && 1 <= l <= 3 implies (
        #[trigger] after.laid(root, va, l) <==> l == 1 && va < 0x80_0000_0000) by {
            lemma_put_entry_ways(linked, root, gib, 1, kernel_entry.0, va, l);
            lemma_put_child_ways(bare, root, gib, 0, va, l);
            lemma_digits(va);
            assert(same_entry(va, gib, 0) <==> index_at(va, 0) == index_at(gib, 0));
        }
    }
    Some(root)
}

/// The window of 8192 pages needs one table of level 2 and 16 of level 3.
proof fn lemma_window_tables(m: TablesModel, root: u64, n: nat)
    requires
        m.wf(),
        m.is_root(root),
        1 <= n <= 8192,
        forall|va: u64, l: int|
            va < 0x1_0000_0000_0000 && 1 <= l <= 3 ==> (#[trigger] m.laid(root, va, l) <==> l == 1
                && va < 0x80_0000_0000),
    ensures
        tables_for(m, root, 0, n) == 2 + (n - 1) / 512,
    decreases n,
{
    let page = page_at(0, n - 1);
    assert(page as int == (n - 1) * 4096);
    assert(m.laid(root, page, 1) && !m.laid(root, page, 2) && !m.laid(root, page, 3));
    assert(m.depth(root, page) == 1);
    assert(tables_for(m, root, 0, 0) == 0);
    if n > 1 {
        lemma_window_tables(m, root, (n - 1) as nat);
        let x = (n - 1) * 4096;
        assert(x % 0x20_0000 != 0 <==> (n - 1) % 512 != 0);
        assert(0 < x < 0x4000_0000);
        assert((n - 1) / 512 == (n - 2) / 512 + if (n - 1) % 512 == 0 {
            1int
        } else {
            0
        });
    }
}

/// Pages of one table of level 3 need what the first of them needs.
proof fn lemma_one_table(m: TablesModel, root: u64, start: int, n: nat)
    requires
        m.wf(),
        m.is_root(root),
        n >= 1,
        0 <= start,
        start % 4096 == 0,
        start % 0x20_0000 + n * 4096 <= 0x20_0000,
    ensures
        tables_for(m, root, start, n) == 3 - m.depth(root, start as u64),
{
    assert(tables_for(m, root, start, 0) == 0);
    assert(page_at(start, 0) == start as u64);
    lemma_way_facts(m, root, start as u64);
    assert(tables_for(m, root, start, 1) == 3 - m.depth(root, start as u64));
    assert forall|i: int| 1 <= i < n implies #[trigger] shared_depth(start + i * 4096) == 3 by {
        assert((start + i * 4096) % 0x20_0000 == start % 0x20_0000 + i * 4096);
    }
    lemma_tables_flat(m, root, start, 1, n);
}

/// The Pi 5 interrupt controller lies across two GiB: one table in the first,
/// two in the second.
proof fn lemma_rpi5_gic_tables(m: TablesModel, root: u64)
    requires
        m.wf(),
        m.is_root(root),
        m.depth(root, GICD_BASE_PHYS) == 2,
        m.depth(root, 0x10_8000_0000) == 1,
    ensures
        tables_for(m, root, GICD_BASE_PHYS as int, (RPI5_GIC_SIZE as int / 4096) as nat) == 3,
{
    let start = GICD_BASE_PHYS as int;
    assert(RPI5_GIC_SIZE as int / 4096 == 33);
    lemma_one_table(m, root, start, 7);
    assert(page_at(start, 7) == 0x10_8000_0000);
    assert(shared_depth(start + 7 * 4096) == 1);
    assert(tables_for(m, root, start, 8) == 3);
    assert forall|i: int| 8 <= i < 33 implies #[trigger] shared_depth(start + i * 4096) == 3 by {
        assert((start + i * 4096) % 0x20_0000 == (i - 7) * 4096);
    }
    lemma_tables_flat(m, root, start, 8, 33);
}

/// Create the tables of a user address space: the physical address of the top
/// table, or `None` if the free frames are not enough. Frames are taken from the
/// end of the free ones; without success all are gone, and stay with the tables
/// that were begun.
///
/// `kernel_entry` is the boot entry of the second GiB, where the kernel lies on
/// the emulated board.
pub fn create_user_address_space(
    memory: &mut TableMemory,
    kernel_entry: PageTableEntry,
    platform: Platform,
) -> (result: Option<u64>)
    requires
        old(memory)@.wf(),
        !entry_is_table(kernel_entry.0),
    ensures
        final(memory)@.wf(),
        final(memory)@.keeps_all(old(memory)@),
        final(memory)@.free == old(memory)@.free.subrange(0, final(memory)@.free.len() as int),
        match result {
            None => {
                &&& old(memory)@.free.len() < user_space_frames(platform)
                &&& final(memory)@.free.len() == 0
            },
            Some(root) => {
                let after = final(memory)@;
                &&& root == old(memory)@.free.last()
                &&& after.is_root(root)
                &&& after.free.len() == old(memory)@.free.len() - user_space_frames(platform)
                &&& forall|va: u64|
                    va < 0x1_0000_0000_0000 ==> #[trigger] after.lookup(root, va) == user_lookup(
                        platform,
                        kernel_entry.0,
                        va,
                    )
            },
        },
{
    let ghost total = memory@.free.len();
    let root: u64 = match user_root(memory, kernel_entry) {
        Some(root) => root,
        None => {
            return None;
        },
    };
    let walker = PageTableWalker::new(root);
    let mut window = PageTableFlags::empty();
    window.present = true;
    window.writable = true;
    let mut device = PageTableFlags::empty();
    device.present = true;
    device.writable = true;
    device.mmio_device = true;
    device.no_execute = true;
    let device_bits: u64 = device.to_pte_bits();

    let ghost start = old(memory)@;
    let ghost m0 = memory@;
    proof {
        assert(m0.keeps_others(start, root));
    }
    let whole = map_identity(&walker, memory, 0, WINDOW_SIZE, window.to_pte_bits());
    let ghost m1 = memory@;
    proof {
        lemma_kept_twice(start, m0, m1, root);
        lemma_takes_twice(start, m0, m1);
        lemma_new_tree_keeps_all(start, m1, root);
        lemma_window_tables(m0, root, 8192);
        lemma_one_table(m1, root, UART_PAGE as int, 1);
        assert(m1.laid(root, UART_PAGE, 1) ==> !m1.laid(root, UART_PAGE, 3));
        lemma_way_facts(m1, root, UART_PAGE);
        if whole {
            assert(span(1) as int == 0x4000_0000);
            assert(UART_PAGE as int / 0x4000_0000 == 0);
            assert(m1.laid(root, UART_PAGE, 2));
        }
    }
    let uart = map_identity(&walker, memory, UART_PAGE, 0x1000, device_bits);
    let ghost m2 = memory@;
    proof {
        lemma_kept_twice(start, m1, m2, root);
        lemma_takes_twice(start, m1, m2);
        lemma_new_tree_keeps_all(start, m2, root);
    }
    if !uart {
        return None;
    }
    match platform {
        Platform::Rpi5 => {
            proof {
                let at = BCM2712_UART10_BASE_PHYS;
                lemma_one_table(m2, root, at as int, 1);
                assert(m1.laid(root, at, 1) && !m1.laid(root, at, 2) && !m1.laid(root, at, 3));
                assert(m2.laid(root, at, 1) && !m2.laid(root, at, 2) && !m2.laid(root, at, 3));
            }
            let debug = map_identity(
                &walker,
                memory,
                BCM2712_UART10_BASE_PHYS,
                0x1000,
                device_bits,
            );
            let ghost m3 = memory@;
            proof {
                lemma_kept_twice(start, m2, m3, root);
                lemma_takes_twice(start, m2, m3);
                lemma_new_tree_keeps_all(start, m3, root);
            }
            if !debug {
                return None;
            }
            proof {
                let at = GICD_BASE_PHYS;
                let beyond = 0x10_8000_0000u64;
                assert(!m1.laid(root, at, 3) && !m2.laid(root, at, 3) && !m3.laid(root, at, 3));
                assert(m3.laid(root, at, 2));
                assert(!m1.laid(root, beyond, 2) && !m2.laid(root, beyond, 2) && !m3.laid(
                    root,
                    beyond,
                    2,
                ));
                assert(m1.laid(root, beyond, 1) && m2.laid(root, beyond, 1) && m3.laid(
                    root,
                    beyond,
                    1,
                ));
                lemma_way_facts(m3, root, beyond);
                lemma_rpi5_gic_tables(m3, root);
            }
            let gic = map_identity(&walker, memory, GICD_BASE_PHYS, RPI5_GIC_SIZE, device_bits);
            let ghost m4 = memory@;
            proof {
                lemma_kept_twice(start, m3, m4, root);
                lemma_takes_twice(start, m3, m4);
                lemma_new_tree_keeps_all(start, m4, root);
            }
            if !gic {
                return None;
            }
            proof {
                let at = RP1_PERIPHERAL_BASE_PHYS;
                assert(m1.laid(root, at, 1) && m2.laid(root, at, 1) && m3.laid(root, at, 1)
                    && m4.laid(root, at, 1));
                assert(!m1.laid(root, at, 2) && !m2.laid(root, at, 2) && !m3.laid(root, at, 2)
                    && !m4.laid(root, at, 2));
                lemma_way_facts(m4, root, at);
            }
            let block = walker.map_l1_block(
                memory,
                RP1_PERIPHERAL_BASE_PHYS,
                RP1_PERIPHERAL_BASE_PHYS,
                device_bits,
            );
            let ghost m5 = memory@;
            proof {
                assert(m5.free =~= m4.free.subrange(0, m5.free.len() as int));
                lemma_kept_twice(start, m4, m5, root);
                lemma_takes_twice(start, m4, m5);
                lemma_new_tree_keeps_all(start, m5, root);
            }
            if block.is_err() {
                return None;
            }
            proof {
                assert forall|va: u64| va < 0x1_0000_0000_0000 implies #[trigger] m5.lookup(
                    root,
                    va,
                ) == if va as int / 0x4000_0000 == 124 {
                    mapped_by(
                        RP1_PERIPHERAL_BASE_PHYS | (device_bits & !PTE_TABLE) | PTE_VALID,
                        1,
                        va,
                    )
                } else {
                    m4.lookup(root, va)
                } by {
                    lemma_sharing(va, RP1_PERIPHERAL_BASE_PHYS);
                }
                let at = VIRTIO_START;
                lemma_sharing(at, RP1_PERIPHERAL_BASE_PHYS);
                assert(m1.laid(root, at, 2) && m2.laid(root, at, 2) && m3.laid(root, at, 2)
                    && m4.laid(root, at, 2) && m5.laid(root, at, 2));
                assert(!m1.laid(root, at, 3) && !m2.laid(root, at, 3) && !m3.laid(root, at, 3)
                    && !m4.laid(root, at, 3) && !m5.laid(root, at, 3));
                lemma_one_table(m5, root, at as int, 4);
            }
        },
        Platform::Virt => {
            proof {
                let at = GIC_START;
                assert(m1.laid(root, at, 2) && m2.laid(root, at, 2));
                assert(!m1.laid(root, at, 3) && !m2.laid(root, at, 3));
                lemma_one_table(m2, root, at as int, 32);
            }
            let gic = map_identity(&walker, memory, GIC_START, GIC_SIZE, device_bits);
            let ghost m3 = memory@;
            proof {
                lemma_kept_twice(start, m2, m3, root);
                lemma_takes_twice(start, m2, m3);
                lemma_new_tree_keeps_all(start, m3, root);
            }
            if !gic {
                return None;
            }
            proof {
                let at = VIRTIO_START;
                assert(m1.laid(root, at, 2) && m2.laid(root, at, 2) && m3.laid(root, at, 2));
                assert(!m1.laid(root, at, 3) && !m2.laid(root, at, 3) && !m3.laid(root, at, 3));
                lemma_one_table(m3, root, at as int, 4);
            }
        },
    }
    let ghost before_virtio = memory@;
    let virtio = map_identity(&walker, memory, VIRTIO_START, VIRTIO_SIZE, device_bits);
    proof {
        lemma_kept_twice(start, before_virtio, memory@, root);
        lemma_takes_twice(start, before_virtio, memory@);
        lemma_new_tree_keeps_all(start, memory@, root);
    }
    if !virtio {
        return None;
    }
    Some(root)
}

/// Law: what a new user address space maps. The first 32 MiB and the registers of the
/// console, the virtual devices and the board's own devices are found at their own
/// addresses. The 32 MiB are memory for the kernel alone, which may write and execute
/// them. Device registers are for the kernel alone, never executed, and device memory.
/// The second GiB is the kernel's entry. Nothing else is mapped.
pub proof fn law_user_space_maps(platform: Platform, kernel_entry: u64, va: u64)
    requires
        va < 0x1_0000_0000_0000,
    ensures
        ({
            let found = user_lookup(platform, kernel_entry, va);
            let device = 0x0900_0000 <= va < 0x0900_1000 || 0x0a00_0000 <= va < 0x0a00_4000 || (
            platform is Virt && 0x0800_0000 <= va < 0x0802_0000) || (platform is Rpi5 && (
            0x10_7D00_1000 <= va < 0x10_7D00_2000 || 0x10_7FFF_9000 <= va < 0x10_8001_A000));
            let peripherals = platform is Rpi5 && 0x1F_0000_0000 <= va < 0x1F_4000_0000;
            &&& va < 0x200_0000 ==> match found {
                Some((addr, entry)) => {
                    let flags = flags_of(entry);
                    &&& addr == va
                    &&& flags.present && flags.writable && !flags.no_execute
                    &&& !flags.user_accessible && !flags.mmio_device && !flags.copy_on_write
                },
                None => false,
            }
            &&& va >= 0x200_0000 && device ==> match found {
                Some((addr, entry)) => {
                    let flags = flags_of(entry);
                    &&& addr == va
                    &&& flags.present && flags.writable && flags.no_execute
                    &&& !flags.user_accessible && flags.mmio_device && !flags.copy_on_write
                },
                None => false,
            }
            &&& peripherals ==> match found {
                Some((addr, entry)) => {
                    let flags = flags_of(entry);
                    &&& addr == va
                    &&& flags.present && flags.writable && flags.no_execute
                    &&& !flags.user_accessible && flags.mmio_device && !flags.copy_on_write
                },
                None => false,
            }
            &&& 0x4000_0000 <= va < 0x8000_0000 ==> found == mapped_by(kernel_entry, 1, va)
            &&& va >= 0x200_0000 && !device && !peripherals && !(0x4000_0000 <= va < 0x8000_0000)
                ==> found is None
        }),
{
    let window = PageTableFlags {
        present: true,
        writable: true,
        no_execute: false,
        user_accessible: false,
        mmio_device: false,
        copy_on_write: false,
    };
    let device = PageTableFlags { no_execute: true, mmio_device: true, ..window };
    let page = (va as int / 0x1000 * 0x1000) as u64;
    lemma_rights_in_entry(page, window);
    lemma_rights_in_entry(page, device);
    law_no_other_bits(device);
    law_present_bits(device);
    law_flags_roundtrip(device);
    let bits = pte_bits(device);
    let block = 0x1F_0000_0000u64 | (bits & !0x2u64) | 0x1;
    assert({
        &&& block & 0x3 == 1
        &&& block & 0x1 != 0
        &&& block & 0x0000_FFFF_FFFF_F000 == 0x1F_0000_0000
        &&& block & 0x80 == bits & 0x80
        &&& block & (0x40_0000_0000_0000u64 | 0x20_0000_0000_0000u64) == bits & (
        0x40_0000_0000_0000u64 | 0x20_0000_0000_0000u64)
        &&& block & 0x40 == bits & 0x40
        &&& block & 0x1C == bits & 0x1C
        &&& block & 0x80_0000_0000_0000 == bits & 0x80_0000_0000_0000
    }) by (bit_vector)
        requires
            block == 0x1F_0000_0000u64 | (bits & !0x2u64) | 0x1,
            bits & 0xFF1F_FFFF_FFFF_F820 == 0,
    ;
}

/// Law: the boot tables map whole GiB: all of memory, at least four and at most 512.
/// Memory may be executed and is write-back; registers of devices are never executed
/// and are device memory. On the emulated board the first GiB is devices, on the Pi 5
/// the GiB of its console, interrupt controller and peripherals are.
pub proof fn law_boot_gib(platform: Platform, total_memory: u64, i: int)
    requires
        0 <= i < 512,
    ensures
        ({
            let entry = boot_entry(platform, total_memory, i);
            let device = match platform {
                Platform::Virt => i == 0,
                Platform::Rpi5 => i == 65 || i == 66 || i == 124,
            };
            let n = gib_mapped(total_memory);
            &&& device_gib(platform, i) ==> device
            &&& platform is Virt ==> device_gib(platform, 0)
            &&& platform is Rpi5 ==> device_gib(platform, 65) && device_gib(platform, 124)
            &&& 4 <= n <= 512
            &&& n == 512 || n * 0x4000_0000 >= total_memory
            &&& n == 4 || (n - 1) * 0x4000_0000 < total_memory
            &&& device_gib(platform, i) || i < n ==> {
                let flags = flags_of(entry);
                &&& entry_is_block(entry)
                &&& entry_addr(entry) == i * 0x4000_0000
                &&& entry & 0x700 == 0x700
                &&& flags.present && flags.writable && !flags.user_accessible
                    && !flags.copy_on_write
                &&& flags.mmio_device == device_gib(platform, i)
                &&& flags.no_execute == device_gib(platform, i)
                &&& entry & 0x1C == if device_gib(platform, i) {
                    0x4
                } else {
                    0x8u64
                }
            }
            &&& !device_gib(platform, i) && i >= n ==> entry == 0
        }),
{
    let entry = boot_entry(platform, total_memory, i);
    if device_gib(platform, i) || i < gib_mapped(total_memory) {
        let flags = if device_gib(platform, i) {
            DEVICE_BLOCK
        } else {
            MEMORY_BLOCK
        };
        lemma_gib_entry(i, flags);
        let addr = (i * 0x4000_0000) as u64;
        assert({
            &&& entry & 0x700 == 0x700
            &&& entry & 0x1 != 0
            &&& entry & 0x80 == 0
            &&& entry & 0x40 == 0
            &&& entry & 0x80_0000_0000_0000 == 0
            &&& flags == (0x1u64 | 0x400 | 0x300 | 0x8) ==> entry & 0x1C == 0x8 && entry & (
            0x40_0000_0000_0000u64 | 0x20_0000_0000_0000u64) == 0
            &&& flags == (0x1u64 | 0x400 | 0x300 | 0x4 | 0x40_0000_0000_0000
                | 0x20_0000_0000_0000) ==> entry & 0x1C == 0x4 && entry & (0x40_0000_0000_0000u64
                | 0x20_0000_0000_0000u64) != 0
        }) by (bit_vector)
            requires
                entry == addr | (flags & !0x2u64) | 0x1,
                addr % 0x4000_0000 == 0,
                addr < 0x80_0000_0000,
                flags == (0x1u64 | 0x400 | 0x300 | 0x8) || flags == (0x1u64 | 0x400 | 0x300 | 0x4
                    | 0x40_0000_0000_0000 | 0x20_0000_0000_0000),
        ;
    }
}

} // verus!
