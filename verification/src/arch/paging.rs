//! AArch64 page tables: four levels, 4 KiB pages, 48-bit addresses.
//!
//! Tables live in a [`TableMemory`], which stands for the physical frames that
//! hold them. The view of a `TableMemory` gives what the hardware would find at
//! each physical address, and [`lookup`] is the hardware's walk.

use std::collections::BTreeMap;

use vstd::prelude::*;

verus! {

pub const ENTRIES_PER_TABLE: usize = 512;

pub const PAGE_SIZE: u64 = 0x1000;

pub const L2_BLOCK_SIZE: u64 = 0x20_0000;

pub const L1_BLOCK_SIZE: u64 = 0x4000_0000;

pub const L0_SPAN: u64 = 0x80_0000_0000;

/// Bits of an entry.
pub const PTE_VALID: u64 = 0x1;

pub const PTE_TABLE: u64 = 0x2;

pub const PTE_PAGE: u64 = 0x2;

pub const PTE_USER: u64 = 0x40;

pub const PTE_READ_ONLY: u64 = 0x80;

pub const PTE_SH_INNER: u64 = 0x300;

pub const PTE_AF: u64 = 0x400;

pub const PTE_PXN: u64 = 0x20_0000_0000_0000;

pub const PTE_UXN: u64 = 0x40_0000_0000_0000;

/// Set by software: the page is shared until it is written.
pub const PTE_COPY_ON_WRITE: u64 = 0x80_0000_0000_0000;

/// The physical address in an entry.
pub const PTE_ADDR_MASK: u64 = 0x0000_FFFF_FFFF_F000;

/// Memory attribute 1: device registers.
pub const PTE_ATTR_DEVICE: u64 = 0x4;

/// Memory attribute 2: ordinary memory.
pub const PTE_ATTR_NORMAL: u64 = 0x8;

pub const PTE_ATTR_MASK: u64 = 0x1C;

/// Memory attributes by index: strongly ordered, device, write-back.
pub const MAIR_VALUE: u64 = 0x00FF_0400;

/// Translation control: 48-bit addresses in both halves, 4 KiB granule,
/// write-back and inner shareable walks, 48-bit physical addresses.
pub const TCR_VALUE: u64 = 0x5_B510_3510;

/// Bits of the system control register that turn on translation and caches.
pub const SCTLR_MMU_CACHES: u64 = 0x1005;

// ---------------------------------------------------------------------------
// Flags and entries
// ---------------------------------------------------------------------------

/// Properties of a mapping.
#[derive(Debug, Clone, Copy, PartialEq, Eq, PartialOrd, Ord, Hash, Structural)]
pub struct PageTableFlags {
    pub present: bool,
    pub writable: bool,
    pub no_execute: bool,
    pub user_accessible: bool,
    /// Device registers rather than memory.
    pub mmio_device: bool,
    pub copy_on_write: bool,
}

/// `bits` if `set`.
pub open spec fn bits_if(set: bool, bits: u64) -> u64 {
    if set {
        bits
    } else {
        0
    }
}

/// The entry bits of flags: an absent page carries neither attributes nor type.
pub open spec fn pte_bits(flags: PageTableFlags) -> u64 {
    bits_if(flags.present, PTE_VALID | PTE_AF | PTE_SH_INNER | PTE_PAGE) | bits_if(
        flags.present && flags.mmio_device,
        PTE_ATTR_DEVICE,
    ) | bits_if(flags.present && !flags.mmio_device, PTE_ATTR_NORMAL) | bits_if(
        !flags.writable,
        PTE_READ_ONLY,
    ) | bits_if(flags.no_execute, PTE_UXN | PTE_PXN) | bits_if(flags.user_accessible, PTE_USER)
        | bits_if(flags.copy_on_write, PTE_COPY_ON_WRITE)
}

/// The flags of entry bits.
pub open spec fn flags_of(bits: u64) -> PageTableFlags {
    PageTableFlags {
        present: bits & PTE_VALID != 0,
        writable: bits & PTE_READ_ONLY == 0,
        no_execute: bits & (PTE_UXN | PTE_PXN) != 0,
        user_accessible: bits & PTE_USER != 0,
        mmio_device: bits & PTE_ATTR_MASK == PTE_ATTR_DEVICE,
        copy_on_write: bits & PTE_COPY_ON_WRITE != 0,
    }
}

impl PageTableFlags {
    pub fn empty() -> (flags: Self)
        ensures
            flags == (PageTableFlags {
                present: false,
                writable: false,
                no_execute: false,
                user_accessible: false,
                mmio_device: false,
                copy_on_write: false,
            }),
    {
        PageTableFlags {
            present: false,
            writable: false,
            no_execute: false,
            user_accessible: false,
            mmio_device: false,
            copy_on_write: false,
        }
    }

    /// The entry bits of these flags.
    pub fn to_pte_bits(self) -> (bits: u64)
        ensures
            bits == pte_bits(self),
    {
        let present: u64 = if self.present {
            PTE_VALID | PTE_AF | PTE_SH_INNER | PTE_PAGE
        } else {
            0
        };
        let device: u64 = if self.present && self.mmio_device {
            PTE_ATTR_DEVICE
        } else {
            0
        };
        let normal: u64 = if self.present && !self.mmio_device {
            PTE_ATTR_NORMAL
        } else {
            0
        };
        let read_only: u64 = if !self.writable {
            PTE_READ_ONLY
        } else {
            0
        };
        let no_execute: u64 = if self.no_execute {
            PTE_UXN | PTE_PXN
        } else {
            0
        };
        let user: u64 = if self.user_accessible {
            PTE_USER
        } else {
            0
        };
        let copy_on_write: u64 = if self.copy_on_write {
            PTE_COPY_ON_WRITE
        } else {
            0
        };
        present | device | normal | read_only | no_execute | user | copy_on_write
    }

    /// The flags of entry bits.
    pub fn from_pte_bits(bits: u64) -> (flags: Self)
        ensures
            flags == flags_of(bits),
    {
        PageTableFlags {
            present: bits & PTE_VALID != 0,
            writable: bits & PTE_READ_ONLY == 0,
            no_execute: bits & (PTE_UXN | PTE_PXN) != 0,
            user_accessible: bits & PTE_USER != 0,
            mmio_device: bits & PTE_ATTR_MASK == PTE_ATTR_DEVICE,
            copy_on_write: bits & PTE_COPY_ON_WRITE != 0,
        }
    }
}

/// Law: flags survive the way into an entry and back. Of an absent page the
/// device property is lost, since it carries no attributes.
pub proof fn law_flags_roundtrip(flags: PageTableFlags)
    requires
        flags.present || !flags.mmio_device,
    ensures
        flags_of(pte_bits(flags)) == flags,
{
    lemma_hardware_bits(flags);
    law_flags_of_bits(pte_bits(flags));
}

/// The bits that flags give and the flags that bits give, in one place.
proof fn lemma_hardware_bits(flags: PageTableFlags)
    ensures
        ({
            let bits = pte_bits(flags);
            &&& (bits & 0x1 != 0) == flags.present
            &&& (bits & 0x2 != 0) == flags.present
            &&& bits & 0x1C == if !flags.present {
                0
            } else if flags.mmio_device {
                0x4u64
            } else {
                0x8
            }
            &&& (bits & 0x40 != 0) == flags.user_accessible
            &&& (bits & 0x80 == 0) == flags.writable
            &&& bits & 0x700 == if flags.present {
                0x700u64
            } else {
                0
            }
            &&& (bits & 0x20_0000_0000_0000 != 0) == flags.no_execute
            &&& (bits & 0x40_0000_0000_0000 != 0) == flags.no_execute
            &&& (bits & 0x80_0000_0000_0000 != 0) == flags.copy_on_write
            &&& bits & 0xFF1F_FFFF_FFFF_F820 == 0
            &&& bits & 0x0000_FFFF_FFFF_F000 == 0
        }),
{
    let present: u64 = bits_if(flags.present, PTE_VALID | PTE_AF | PTE_SH_INNER | PTE_PAGE);
    let device: u64 = bits_if(flags.present && flags.mmio_device, PTE_ATTR_DEVICE);
    let normal: u64 = bits_if(flags.present && !flags.mmio_device, PTE_ATTR_NORMAL);
    let read_only: u64 = bits_if(!flags.writable, PTE_READ_ONLY);
    let no_execute: u64 = bits_if(flags.no_execute, PTE_UXN | PTE_PXN);
    let user: u64 = bits_if(flags.user_accessible, PTE_USER);
    let cow: u64 = bits_if(flags.copy_on_write, PTE_COPY_ON_WRITE);
    let bits = present | device | normal | read_only | no_execute | user | cow;
    assert({
        &&& (bits & 0x1 != 0) == (present != 0)
        &&& (bits & 0x2 != 0) == (present != 0)
        &&& bits & 0x1C == device | normal
        &&& (bits & 0x40 != 0) == (user != 0)
        &&& (bits & 0x80 == 0) == (read_only == 0)
        &&& bits & 0x700 == present & 0x700
        &&& present == 0 || present & 0x700 == 0x700
        &&& 0u64 & 0x700 == 0
        &&& device | normal == if device != 0 {
            device
        } else {
            normal
        }
        &&& (bits & 0x20_0000_0000_0000 != 0) == (no_execute != 0)
        &&& (bits & 0x40_0000_0000_0000 != 0) == (no_execute != 0)
        &&& (bits & 0x80_0000_0000_0000 != 0) == (cow != 0)
        &&& bits & 0xFF1F_FFFF_FFFF_F820 == 0
        &&& bits & 0x0000_FFFF_FFFF_F000 == 0
        &&& (0x1u64 | 0x400 | 0x300 | 0x2) != 0
        &&& (0x40_0000_0000_0000u64 | 0x20_0000_0000_0000) != 0
    }) by (bit_vector)
        requires
            bits == present | device | normal | read_only | no_execute | user | cow,
            present == 0 || present == 0x1u64 | 0x400 | 0x300 | 0x2,
            device == 0 || device == 0x4,
            normal == 0 || normal == 0x8,
            device == 0 || normal == 0,
            read_only == 0 || read_only == 0x80,
            no_execute == 0 || no_execute == 0x40_0000_0000_0000u64 | 0x20_0000_0000_0000,
            user == 0 || user == 0x40,
            cow == 0 || cow == 0x80_0000_0000_0000,
    ;
}

/// Law: the hardware grants user programs a page exactly if it is meant for them.
pub proof fn law_user_bit(flags: PageTableFlags)
    ensures
        pte_bits(flags) & 0x40 != 0 <==> flags.user_accessible,
{
    lemma_hardware_bits(flags);
}

/// Law: a page that must not be executed is executed neither by user programs nor
/// by the kernel; any other by both.
pub proof fn law_execute_never_bits(flags: PageTableFlags)
    ensures
        pte_bits(flags) & 0x20_0000_0000_0000 != 0 <==> flags.no_execute,
        pte_bits(flags) & 0x40_0000_0000_0000 != 0 <==> flags.no_execute,
{
    lemma_hardware_bits(flags);
}

/// Law: the hardware refuses writes exactly to pages that are not writable.
pub proof fn law_read_only_bit(flags: PageTableFlags)
    ensures
        pte_bits(flags) & 0x80 != 0 <==> !flags.writable,
{
    lemma_hardware_bits(flags);
}

/// Law: the mark of a shared page is its own bit.
pub proof fn law_copy_on_write_bit(flags: PageTableFlags)
    ensures
        pte_bits(flags) & 0x80_0000_0000_0000 != 0 <==> flags.copy_on_write,
{
    lemma_hardware_bits(flags);
}

/// Law: the hardware uses an entry exactly if the page is present; it is then a
/// page, was accessed and is inner shareable.
pub proof fn law_present_bits(flags: PageTableFlags)
    ensures
        pte_bits(flags) & 0x1 != 0 <==> flags.present,
        pte_bits(flags) & 0x2 != 0 <==> flags.present,
        pte_bits(flags) & 0x700 == if flags.present {
            0x700
        } else {
            0u64
        },
{
    lemma_hardware_bits(flags);
}

/// Law: device registers have memory attribute 1 and ordinary memory has attribute
/// 2; by those the processor takes the one as device memory and the other as
/// write-back memory.
pub proof fn law_memory_attribute(flags: PageTableFlags)
    requires
        flags.present,
    ensures
        pte_bits(flags) & 0x1C == if flags.mmio_device {
            0x4
        } else {
            0x8u64
        },
        MAIR_VALUE as int / 0x100 % 0x100 == 0x04,
        MAIR_VALUE as int / 0x1_0000 % 0x100 == 0xFF,
{
    lemma_hardware_bits(flags);
}

/// Law: flags touch no other bit of an entry.
pub proof fn law_no_other_bits(flags: PageTableFlags)
    ensures
        pte_bits(flags) & 0xFF1F_FFFF_FFFF_F820 == 0,
{
    lemma_hardware_bits(flags);
}

/// Law: the flags of an entry are read off the hardware's own bits.
pub proof fn law_flags_of_bits(bits: u64)
    ensures
        flags_of(bits).present <==> bits & 0x1 != 0,
        flags_of(bits).user_accessible <==> bits & 0x40 != 0,
        flags_of(bits).writable <==> bits & 0x80 == 0,
        flags_of(bits).no_execute <==> bits & 0x20_0000_0000_0000 != 0 || bits
            & 0x40_0000_0000_0000 != 0,
        flags_of(bits).mmio_device <==> bits & 0x1C == 0x4,
        flags_of(bits).copy_on_write <==> bits & 0x80_0000_0000_0000 != 0,
{
    assert(bits & (0x40_0000_0000_0000u64 | 0x20_0000_0000_0000) != 0 <==> (bits
        & 0x20_0000_0000_0000 != 0 || bits & 0x40_0000_0000_0000 != 0)) by (bit_vector);
}

/// The bits of flags leave the address free.
pub proof fn lemma_pte_bits_outside_address(flags: PageTableFlags)
    ensures
        pte_bits(flags) & PTE_ADDR_MASK == 0,
{
    lemma_hardware_bits(flags);
}

pub open spec fn entry_valid(entry: u64) -> bool {
    entry & PTE_VALID != 0
}

/// The entry leads to a table of the next level.
pub open spec fn entry_is_table(entry: u64) -> bool {
    entry & 0x3 == 0x3
}

/// The entry maps a block.
pub open spec fn entry_is_block(entry: u64) -> bool {
    entry & 0x3 == 0x1
}

pub open spec fn entry_addr(entry: u64) -> u64 {
    entry & PTE_ADDR_MASK
}

/// A frame address: aligned, and within the physical address space.
pub open spec fn frame_address(addr: u64) -> bool {
    addr % PAGE_SIZE == 0 && addr <= PTE_ADDR_MASK
}

/// An entry is invalid, a block or a table.
pub(crate) proof fn lemma_entry_kinds(entry: u64)
    ensures
        entry_is_table(entry) ==> entry_valid(entry),
        entry_is_block(entry) ==> entry_valid(entry),
        entry_valid(entry) ==> entry_is_table(entry) || entry_is_block(entry),
        entry_addr(entry) <= PTE_ADDR_MASK,
        frame_address(entry_addr(entry)),
        !entry_valid(0),
{
    assert({
        &&& entry & 0x3 == 0x3 ==> entry & 0x1 != 0
        &&& entry & 0x3 == 0x1 ==> entry & 0x1 != 0
        &&& entry & 0x1 != 0 ==> entry & 0x3 == 0x3 || entry & 0x3 == 0x1
        &&& entry & 0x0000_FFFF_FFFF_F000 <= 0x0000_FFFF_FFFF_F000
        &&& (entry & 0x0000_FFFF_FFFF_F000) % 0x1000 == 0
        &&& 0u64 & 0x1 == 0
    }) by (bit_vector);
}

/// A table entry leads where it should.
pub(crate) proof fn lemma_table_entry(addr: u64)
    requires
        frame_address(addr),
    ensures
        entry_is_table(addr | PTE_VALID | PTE_TABLE),
        entry_addr(addr | PTE_VALID | PTE_TABLE) == addr,
{
    assert((addr | 0x1 | 0x2) & 0x3 == 0x3 && (addr | 0x1 | 0x2) & 0x0000_FFFF_FFFF_F000 == addr)
        by (bit_vector)
        requires
            addr % 0x1000 == 0,
            addr <= 0x0000_FFFF_FFFF_F000,
    ;
}

/// A block entry is a block.
pub(crate) proof fn lemma_block_entry(addr: u64, flags: u64)
    requires
        addr % L2_BLOCK_SIZE == 0,
    ensures
        entry_is_block(addr | (flags & !PTE_TABLE) | PTE_VALID),
{
    assert((addr | (flags & !0x2u64) | 0x1) & 0x3 == 0x1) by (bit_vector)
        requires
            addr % 0x20_0000 == 0,
    ;
}

/// One entry of a table.
#[derive(Debug, Clone, Copy, PartialEq, Eq, Structural)]
pub struct PageTableEntry(pub u64);

impl PageTableEntry {
    /// An invalid entry.
    pub fn empty() -> (entry: Self)
        ensures
            entry.0 == 0,
    {
        PageTableEntry(0)
    }

    /// An entry that leads to the table at `phys_addr`.
    pub fn table(phys_addr: u64) -> (entry: Self)
        ensures
            entry.0 == phys_addr | PTE_VALID | PTE_TABLE,
    {
        PageTableEntry(phys_addr | PTE_VALID | PTE_TABLE)
    }

    /// An entry of the last level.
    pub fn page(phys_addr: u64, flags: u64) -> (entry: Self)
        ensures
            entry.0 == phys_addr | flags,
    {
        PageTableEntry(phys_addr | flags)
    }

    /// An entry that maps a block.
    pub fn block(phys_addr: u64, flags: u64) -> (entry: Self)
        ensures
            entry.0 == phys_addr | (flags & !PTE_TABLE) | PTE_VALID,
    {
        PageTableEntry(phys_addr | (flags & !PTE_TABLE) | PTE_VALID)
    }

    pub fn is_valid(&self) -> (valid: bool)
        ensures
            valid == entry_valid(self.0),
    {
        self.0 & PTE_VALID != 0
    }

    pub fn is_table(&self) -> (table: bool)
        ensures
            table == entry_is_table(self.0),
    {
        self.0 & 0x3 == 0x3
    }

    pub fn is_block(&self) -> (block: bool)
        ensures
            block == entry_is_block(self.0),
    {
        self.0 & 0x3 == 0x1
    }

    /// The physical address.
    pub fn addr(&self) -> (addr: u64)
        ensures
            addr == entry_addr(self.0),
    {
        self.0 & PTE_ADDR_MASK
    }

    pub fn raw(&self) -> (value: u64)
        ensures
            value == self.0,
    {
        self.0
    }

    pub fn set(&mut self, value: u64)
        ensures
            final(self).0 == value,
    {
        self.0 = value;
    }

    pub fn clear(&mut self)
        ensures
            final(self).0 == 0,
    {
        self.0 = 0;
    }
}

/// A table. Its view is the raw entries.
#[derive(Debug, Clone, Copy)]
pub struct PageTable {
    entries: [PageTableEntry; ENTRIES_PER_TABLE],
}

impl View for PageTable {
    type V = Seq<u64>;

    closed spec fn view(&self) -> Seq<u64> {
        Seq::new(512, |i: int| self.entries@[i].0)
    }
}

/// The raw entries of an empty table.
pub open spec fn empty_entries() -> Seq<u64> {
    Seq::new(512, |i: int| 0u64)
}

impl PageTable {
    pub fn empty() -> (table: Self)
        ensures
            table@ == empty_entries(),
    {
        let table = PageTable { entries: [PageTableEntry(0);ENTRIES_PER_TABLE] };
        assert(table@ =~= empty_entries());
        table
    }

    pub fn entry(&self, index: usize) -> (entry: &PageTableEntry)
        requires
            index < ENTRIES_PER_TABLE,
        ensures
            entry.0 == self@[index as int],
    {
        &self.entries[index]
    }

    /// The entry at `index`, to be changed in place.
    pub fn entry_mut(&mut self, index: usize) -> (entry: &mut PageTableEntry)
        requires
            index < ENTRIES_PER_TABLE,
        ensures
            entry.0 == old(self)@[index as int],
            final(self)@ == old(self)@.update(index as int, final(entry).0),
    {
        &mut self.entries[index]
    }

    /// Put an entry.
    pub fn put(&mut self, index: usize, entry: PageTableEntry)
        requires
            index < ENTRIES_PER_TABLE,
        ensures
            final(self)@ == old(self)@.update(index as int, entry.0),
    {
        let ghost before = self@;
        self.entries[index] = entry;
        assert(self@ =~= before.update(index as int, entry.0));
    }

    /// Make all entries invalid.
    pub fn zero(&mut self)
        ensures
            final(self)@ == empty_entries(),
    {
        let mut i: usize = 0;
        while i < ENTRIES_PER_TABLE
            invariant
                i <= ENTRIES_PER_TABLE,
                forall|k: int| 0 <= k < i ==> (#[trigger] self.entries@[k]).0 == 0,
            decreases ENTRIES_PER_TABLE - i,
        {
            self.entries[i] = PageTableEntry(0);
            i = i + 1;
        }
        assert(self@ =~= empty_entries());
    }
}

// ---------------------------------------------------------------------------
// The walk
// ---------------------------------------------------------------------------

/// Bytes that one entry of a level maps.
pub open spec fn span(level: int) -> u64 {
    if level <= 0 {
        L0_SPAN
    } else if level == 1 {
        L1_BLOCK_SIZE
    } else if level == 2 {
        L2_BLOCK_SIZE
    } else {
        PAGE_SIZE
    }
}

/// The index of an address at a level.
pub open spec fn index_at(va: u64, level: int) -> int {
    (va / span(level)) as int % 512
}

/// The indices of an address at the four levels.
pub fn va_to_indices(va: u64) -> (indices: [usize; 4])
    ensures
        forall|level: int|
            0 <= level < 4 ==> #[trigger] indices@[level] == index_at(va, level) && indices@[level]
                < 512,
{
    [
        ((va / L0_SPAN) % 512) as usize,
        ((va / L1_BLOCK_SIZE) % 512) as usize,
        ((va / L2_BLOCK_SIZE) % 512) as usize,
        ((va / PAGE_SIZE) % 512) as usize,
    ]
}

/// The two addresses take the same entries down to and including `level`.
pub open spec fn same_entry(a: u64, b: u64, level: int) -> bool {
    forall|l: int| 0 <= l <= level ==> #[trigger] index_at(a, l) == index_at(b, l)
}

/// The two addresses take the same entries above `level`, so share its table.
pub open spec fn same_above(a: u64, b: u64, level: int) -> bool {
    forall|l: int| 0 <= l < level ==> #[trigger] index_at(a, l) == index_at(b, l)
}

/// What an entry at `level` maps an address to: physical address and raw entry.
pub open spec fn mapped_by(entry: u64, level: int, va: u64) -> Option<(int, u64)> {
    if !entry_valid(entry) || (level < 3 && !entry_is_block(entry)) {
        None
    } else {
        Some((entry_addr(entry) + va as int % span(level) as int, entry))
    }
}

/// The hardware's walk from a table of `level`.
pub open spec fn lookup_from(
    tables: Map<u64, Seq<u64>>,
    table: u64,
    level: int,
    va: u64,
) -> Option<(int, u64)>
    decreases 3 - level,
{
    let entry = tables[table][index_at(va, level)];
    if level < 3 && entry_is_table(entry) {
        lookup_from(tables, entry_addr(entry), level + 1, va)
    } else {
        mapped_by(entry, level, va)
    }
}

/// The hardware's walk: the physical address and raw entry of an address.
pub open spec fn lookup(tables: Map<u64, Seq<u64>>, root: u64, va: u64) -> Option<(int, u64)> {
    lookup_from(tables, root, 0, va)
}

/// The table of `level` on the way to an address.
pub open spec fn table_at(
    tables: Map<u64, Seq<u64>>,
    root: u64,
    va: u64,
    level: int,
) -> Option<u64>
    decreases level,
{
    if level <= 0 {
        Some(root)
    } else {
        match table_at(tables, root, va, level - 1) {
            Some(table) => {
                let entry = tables[table][index_at(va, level - 1)];
                if entry_is_table(entry) {
                    Some(entry_addr(entry))
                } else {
                    None
                }
            },
            None => None,
        }
    }
}

/// The entry at (`table`, `index`) is on the way to the address.
pub open spec fn passes(
    tables: Map<u64, Seq<u64>>,
    root: u64,
    va: u64,
    level: int,
    table: u64,
    index: int,
) -> bool {
    table_at(tables, root, va, level) == Some(table) && index_at(va, level) == index
}

/// Physical memory that holds tables.
#[verifier::ext_equal]
pub struct TablesModel {
    /// The raw entries of each table, by physical address.
    pub tables: Map<u64, Seq<u64>>,
    /// The level of each table.
    pub levels: Map<u64, int>,
    /// Frames that can become tables, the last one first.
    pub free: Seq<u64>,
}

impl TablesModel {
    /// The entry leads from one table to another.
    pub open spec fn links(self, table: u64, index: int) -> bool {
        &&& self.tables.contains_key(table)
        &&& 0 <= index < 512
        &&& self.levels[table] < 3
        &&& entry_is_table(self.tables[table][index])
    }

    /// The tables form trees: a table of each level leads only to tables of the
    /// next, and no table has two parents, except that top tables may share what
    /// is below them, each in the same place.
    pub open spec fn wf(self) -> bool {
        &&& self.tables.dom() =~= self.levels.dom()
        &&& forall|t: u64| #[trigger]
            self.tables.contains_key(t) ==> {
                &&& self.tables[t].len() == 512
                &&& 0 <= self.levels[t] <= 3
                &&& frame_address(t)
            }
        &&& forall|t: u64, i: int| #[trigger]
            self.links(t, i) ==> {
                let child = entry_addr(self.tables[t][i]);
                &&& self.tables.contains_key(child)
                &&& self.levels[child] == self.levels[t] + 1
            }
        &&& forall|t: u64, i: int, u: u64, j: int| #[trigger]
            self.links(t, i) && #[trigger] self.links(u, j) && entry_addr(self.tables[t][i])
                == entry_addr(self.tables[u][j]) ==> i == j && (t == u || self.levels[t] == 0)
        &&& forall|k: int|
            0 <= k < self.free.len() ==> frame_address(#[trigger] self.free[k])
                && !self.tables.contains_key(self.free[k])
        &&& forall|k: int, l: int|
            0 <= k < l < self.free.len() ==> #[trigger] self.free[k] != #[trigger] self.free[l]
    }

    /// `root` is the top of a tree.
    pub open spec fn is_root(self, root: u64) -> bool {
        self.tables.contains_key(root) && self.levels[root] == 0
    }

    pub open spec fn lookup(self, root: u64, va: u64) -> Option<(int, u64)> {
        lookup(self.tables, root, va)
    }

    /// Both memories translate every address under `root` alike.
    pub open spec fn translates_like(self, other: TablesModel, root: u64) -> bool {
        forall|va: u64| #[trigger] self.lookup(root, va) == other.lookup(root, va)
    }

    /// Two trees have the table below the top in common on the way to an address.
    pub open spec fn shares(self, a: u64, b: u64, va: u64) -> bool {
        &&& self.is_root(a)
        &&& self.is_root(b)
        &&& table_at(self.tables, a, va, 1) is Some
        &&& table_at(self.tables, a, va, 1) == table_at(self.tables, b, va, 1)
    }

    /// The tree of `other` translates as before, but what it shares with that of
    /// `root` as that one does now; and it shares what it shared.
    pub open spec fn follows(self, before: TablesModel, root: u64, other: u64) -> bool {
        &&& forall|va: u64| #[trigger]
            self.lookup(other, va) == if before.shares(root, other, va) {
                self.lookup(root, va)
            } else {
                before.lookup(other, va)
            }
        &&& forall|va: u64| #[trigger]
            self.shares(root, other, va) == before.shares(root, other, va)
    }

    /// All other trees are there as before, and translate every address that they
    /// do not share with the tree of `root` alike.
    pub open spec fn keeps_others(self, before: TablesModel, root: u64) -> bool {
        forall|other: u64|
            before.is_root(other) && other != root ==> #[trigger] self.is_root(other)
                && self.follows(before, root, other)
    }

    /// All trees are there as before, and translate every address alike.
    pub open spec fn keeps_all(self, before: TablesModel) -> bool {
        forall|other: u64|
            before.is_root(other) ==> #[trigger] self.is_root(other) && self.translates_like(
                before,
                other,
            )
    }

    /// With an entry put.
    pub open spec fn with_entry(self, table: u64, index: int, entry: u64) -> TablesModel {
        TablesModel {
            tables: self.tables.insert(table, self.tables[table].update(index, entry)),
            ..self
        }
    }

    /// With the next free frame as an empty table below an entry.
    pub open spec fn with_child(self, table: u64, index: int) -> TablesModel {
        let child = self.free.last();
        TablesModel {
            tables: self.tables.insert(
                table,
                self.tables[table].update(index, child | PTE_VALID | PTE_TABLE),
            ).insert(child, empty_entries()),
            levels: self.levels.insert(child, self.levels[table] + 1),
            free: self.free.drop_last(),
        }
    }

    /// The way to an address has a table of `level`.
    pub open spec fn laid(self, root: u64, va: u64, level: int) -> bool {
        table_at(self.tables, root, va, level) is Some
    }

    /// How far the way to an address is laid: the lowest table on it.
    pub open spec fn depth(self, root: u64, va: u64) -> int {
        if self.laid(root, va, 3) {
            3
        } else if self.laid(root, va, 2) {
            2
        } else if self.laid(root, va, 1) {
            1
        } else {
            0
        }
    }

    /// The entry of an address in the lowest table on its way.
    pub open spec fn last_entry(self, root: u64, va: u64) -> u64 {
        let depth = self.depth(root, va);
        self.tables[table_at(self.tables, root, va, depth)->0][index_at(va, depth)]
    }
}

// ---------------------------------------------------------------------------
// Facts about trees
// ---------------------------------------------------------------------------

/// The table of a level on a way is a table of that level.
pub(crate) proof fn lemma_table_at_level(m: TablesModel, root: u64, va: u64, level: int)
    requires
        m.wf(),
        m.is_root(root),
        0 <= level <= 3,
    ensures
        table_at(m.tables, root, va, level) is Some ==> {
            let table = table_at(m.tables, root, va, level)->0;
            m.tables.contains_key(table) && m.levels[table] == level
        },
    decreases level,
{
    if level > 0 {
        lemma_table_at_level(m, root, va, level - 1);
        if table_at(m.tables, root, va, level) is Some {
            let above = table_at(m.tables, root, va, level - 1)->0;
            assert(m.links(above, index_at(va, level - 1)));
        }
    }
}

/// A way that reaches a level has reached all levels above.
proof fn lemma_table_at_above(tables: Map<u64, Seq<u64>>, root: u64, va: u64, level: int, up: int)
    requires
        0 <= up <= level,
        table_at(tables, root, va, level) is Some,
    ensures
        table_at(tables, root, va, up) is Some,
    decreases level - up,
{
    if up < level {
        lemma_table_at_above(tables, root, va, level - 1, up);
    }
}

/// The walk goes on from any table on the way.
proof fn lemma_lookup_from_way(tables: Map<u64, Seq<u64>>, root: u64, va: u64, level: int)
    requires
        0 <= level <= 3,
        table_at(tables, root, va, level) is Some,
    ensures
        lookup(tables, root, va) == lookup_from(
            tables,
            table_at(tables, root, va, level)->0,
            level,
            va,
        ),
    decreases level,
{
    if level > 0 {
        lemma_lookup_from_way(tables, root, va, level - 1);
    }
}

/// Two ways through the same table took the same entries above it.
proof fn lemma_same_way(m: TablesModel, root: u64, a: u64, b: u64, level: int)
    requires
        m.wf(),
        m.is_root(root),
        0 <= level <= 3,
        table_at(m.tables, root, a, level) is Some,
        table_at(m.tables, root, a, level) == table_at(m.tables, root, b, level),
    ensures
        forall|l: int| 0 <= l < level ==> #[trigger] index_at(a, l) == index_at(b, l),
    decreases level,
{
    if level > 0 {
        lemma_table_at_level(m, root, a, level - 1);
        lemma_table_at_level(m, root, b, level - 1);
        let ta = table_at(m.tables, root, a, level - 1)->0;
        let tb = table_at(m.tables, root, b, level - 1)->0;
        assert(m.links(ta, index_at(a, level - 1)));
        assert(m.links(tb, index_at(b, level - 1)));
        lemma_same_way(m, root, a, b, level - 1);
    }
}

/// Addresses with the same entries above a level share the way to it.
proof fn lemma_way_by_indices(tables: Map<u64, Seq<u64>>, root: u64, a: u64, b: u64, level: int)
    requires
        0 <= level <= 3,
        forall|l: int| 0 <= l < level ==> #[trigger] index_at(a, l) == index_at(b, l),
    ensures
        table_at(tables, root, a, level) == table_at(tables, root, b, level),
    decreases level,
{
    if level > 0 {
        lemma_way_by_indices(tables, root, a, b, level - 1);
        assert(index_at(a, level - 1) == index_at(b, level - 1));
    }
}

/// Exactly the addresses with the same entries pass the entry of an address.
proof fn lemma_passes_iff(m: TablesModel, root: u64, va: u64, other: u64, level: int)
    requires
        m.wf(),
        m.is_root(root),
        0 <= level <= 3,
        table_at(m.tables, root, va, level) is Some,
    ensures
        passes(
            m.tables,
            root,
            other,
            level,
            table_at(m.tables, root, va, level)->0,
            index_at(va, level),
        ) <==> same_entry(other, va, level),
{
    let table = table_at(m.tables, root, va, level)->0;
    if passes(m.tables, root, other, level, table, index_at(va, level)) {
        lemma_same_way(m, root, other, va, level);
        assert forall|l: int| 0 <= l <= level implies #[trigger] index_at(other, l) == index_at(
            va,
            l,
        ) by {
            if l == level {
            }
        }
    }
    if same_entry(other, va, level) {
        assert forall|l: int| 0 <= l < level implies #[trigger] index_at(other, l) == index_at(
            va,
            l,
        ) by {}
        lemma_way_by_indices(m.tables, root, other, va, level);
        assert(index_at(other, level) == index_at(va, level));
    }
}

/// Putting an entry does not change the ways above its level.
proof fn lemma_way_unchanged(
    m: TablesModel,
    after: Map<u64, Seq<u64>>,
    root: u64,
    va: u64,
    level: int,
    table: u64,
)
    requires
        m.wf(),
        m.is_root(root),
        m.tables.contains_key(table),
        0 <= level <= m.levels[table],
        forall|t: u64|
            m.tables.contains_key(t) && t != table ==> #[trigger] after[t] == m.tables[t],
    ensures
        table_at(after, root, va, level) == table_at(m.tables, root, va, level),
    decreases level,
{
    if level > 0 {
        lemma_way_unchanged(m, after, root, va, level - 1, table);
        lemma_table_at_level(m, root, va, level - 1);
    }
}

/// Putting an entry does not change the walks that do not pass it.
proof fn lemma_walk_unchanged(
    m: TablesModel,
    after: Map<u64, Seq<u64>>,
    root: u64,
    va: u64,
    level: int,
    table: u64,
    index: int,
)
    requires
        m.wf(),
        m.is_root(root),
        m.tables.contains_key(table),
        0 <= index < 512,
        0 <= level <= 3,
        table_at(m.tables, root, va, level) is Some,
        !passes(m.tables, root, va, m.levels[table], table, index),
        forall|t: u64|
            m.tables.contains_key(t) && t != table ==> #[trigger] after[t] == m.tables[t],
        after[table].len() == 512,
        forall|i: int| 0 <= i < 512 && i != index ==> #[trigger] after[table][i]
            == m.tables[table][i],
    ensures
        ({
            let here = table_at(m.tables, root, va, level)->0;
            lookup_from(after, here, level, va) == lookup_from(m.tables, here, level, va)
        }),
    decreases 3 - level,
{
    let here = table_at(m.tables, root, va, level)->0;
    lemma_table_at_level(m, root, va, level);
    let i = index_at(va, level);
    assert(after[here][i] == m.tables[here][i]);
    let entry = m.tables[here][i];
    if level < 3 && entry_is_table(entry) {
        assert(m.links(here, i));
        assert(table_at(m.tables, root, va, level + 1) == Some(entry_addr(entry)));
        lemma_walk_unchanged(m, after, root, va, level + 1, table, index);
    }
}

/// Law: two address spaces have tables in common only by sharing what is below an
/// entry of their top tables, and they have them in the same place.
pub proof fn law_tables_are_shared_in_place(
    m: TablesModel,
    ra: u64,
    rb: u64,
    a: u64,
    b: u64,
    level: int,
)
    requires
        m.wf(),
        m.is_root(ra),
        m.is_root(rb),
        1 <= level <= 3,
        table_at(m.tables, ra, a, level) is Some,
        table_at(m.tables, ra, a, level) == table_at(m.tables, rb, b, level),
    ensures
        forall|l: int| 0 <= l < level ==> #[trigger] index_at(a, l) == index_at(b, l),
        m.shares(ra, rb, a),
        m.shares(ra, rb, b),
    decreases level,
{
    lemma_table_at_level(m, ra, a, level - 1);
    lemma_table_at_level(m, rb, b, level - 1);
    let ta = table_at(m.tables, ra, a, level - 1)->0;
    let tb = table_at(m.tables, rb, b, level - 1)->0;
    assert(m.links(ta, index_at(a, level - 1)));
    assert(m.links(tb, index_at(b, level - 1)));
    if level > 1 {
        law_tables_are_shared_in_place(m, ra, rb, a, b, level - 1);
    } else {
        assert(table_at(m.tables, ra, a, 0) == Some(ra));
        assert(table_at(m.tables, rb, b, 0) == Some(rb));
        lemma_way_by_indices(m.tables, ra, a, b, 1);
        lemma_way_by_indices(m.tables, rb, a, b, 1);
    }
}

/// Where two trees share, they translate alike.
pub(crate) proof fn lemma_shared_alike(m: TablesModel, a: u64, b: u64, va: u64)
    requires
        m.shares(a, b, va),
    ensures
        m.lookup(a, va) == m.lookup(b, va),
{
    lemma_lookup_from_way(m.tables, a, va, 1);
    lemma_lookup_from_way(m.tables, b, va, 1);
}

/// What does not change keeps the other trees.
pub(crate) proof fn lemma_kept_unchanged(m: TablesModel, root: u64)
    ensures
        m.keeps_others(m, root),
{
    assert forall|other: u64| m.is_root(other) && other != root implies #[trigger] m.is_root(other)
        && m.follows(m, root, other) by {
        assert forall|va: u64| #[trigger] m.lookup(other, va) == if m.shares(root, other, va) {
            m.lookup(root, va)
        } else {
            m.lookup(other, va)
        } by {
            if m.shares(root, other, va) {
                lemma_shared_alike(m, root, other, va);
            }
        }
    }
}

/// A change of an entry in one tree leaves the walks in all others alone, but for
/// what they share.
pub(crate) proof fn lemma_others_kept(
    m: TablesModel,
    after: TablesModel,
    root: u64,
    va: u64,
    level: int,
    index: int,
)
    requires
        m.wf(),
        m.is_root(root),
        0 <= level <= 3,
        table_at(m.tables, root, va, level) is Some,
        0 <= index < 512,
        forall|t: u64| #[trigger] m.tables.contains_key(t) ==> after.tables.contains_key(t)
            && after.levels[t] == m.levels[t],
        ({
            let table = table_at(m.tables, root, va, level)->0;
            &&& forall|t: u64|
                m.tables.contains_key(t) && t != table ==> #[trigger] after.tables[t]
                    == m.tables[t]
            &&& after.tables[table].len() == 512
            &&& forall|i: int|
                0 <= i < 512 && i != index ==> #[trigger] after.tables[table][i]
                    == m.tables[table][i]
            &&& level == 0 ==> {
                let entry = after.tables[table][index];
                &&& !entry_is_table(m.tables[table][index])
                &&& entry_is_table(entry) ==> !m.tables.contains_key(entry_addr(entry))
            }
        }),
    ensures
        after.keeps_others(m, root),
{
    let table = table_at(m.tables, root, va, level)->0;
    lemma_table_at_level(m, root, va, level);
    assert(m.tables.contains_key(root));
    assert forall|other: u64| m.is_root(other) && other != root implies #[trigger] after.is_root(
        other,
    ) && after.follows(m, root, other) by {
        assert(m.tables.contains_key(other));
        assert forall|v: u64| #[trigger] after.shares(root, other, v) == m.shares(root, other, v) by {
            lemma_shares_kept(m, after, root, other, v, level, table, index);
        }
        assert forall|v: u64| #[trigger] after.lookup(other, v) == if m.shares(root, other, v) {
            after.lookup(root, v)
        } else {
            m.lookup(other, v)
        } by {
            lemma_shares_kept(m, after, root, other, v, level, table, index);
            if m.shares(root, other, v) {
                lemma_shared_alike(after, root, other, v);
            } else {
                if passes(m.tables, other, v, level, table, index) {
                    if level > 0 {
                        law_tables_are_shared_in_place(m, root, other, va, v, level);
                    }
                }
                lemma_walk_unchanged(m, after.tables, other, v, 0, table, index);
            }
        }
    }
}

/// Changing an entry changes nothing of what two trees share, as long as an entry
/// of a top table gets no table that was there before.
proof fn lemma_shares_kept(
    m: TablesModel,
    after: TablesModel,
    root: u64,
    other: u64,
    v: u64,
    level: int,
    table: u64,
    index: int,
)
    requires
        m.wf(),
        m.is_root(root),
        m.is_root(other),
        other != root,
        after.is_root(root),
        after.is_root(other),
        m.tables.contains_key(table),
        m.levels[table] == level,
        0 <= level <= 3,
        0 <= index < 512,
        level == 0 ==> table == root,
        forall|t: u64|
            m.tables.contains_key(t) && t != table ==> #[trigger] after.tables[t] == m.tables[t],
        forall|i: int| 0 <= i < 512 && i != index ==> #[trigger] after.tables[table][i]
            == m.tables[table][i],
        level == 0 ==> {
            let entry = after.tables[table][index];
            &&& !entry_is_table(m.tables[table][index])
            &&& entry_is_table(entry) ==> !m.tables.contains_key(entry_addr(entry))
        },
    ensures
        after.shares(root, other, v) == m.shares(root, other, v),
{
    let i = index_at(v, 0);
    assert(0 <= i < 512);
    assert(after.tables[other] == m.tables[other]);
    assert(table_at(m.tables, root, v, 0) == Some(root));
    assert(table_at(after.tables, root, v, 0) == Some(root));
    assert(table_at(m.tables, other, v, 0) == Some(other));
    assert(table_at(after.tables, other, v, 0) == Some(other));
    if entry_is_table(m.tables[other][i]) {
        assert(m.links(other, i));
    }
    if level > 0 {
        assert(after.tables[root] == m.tables[root]);
    }
}

/// A table more that nothing leads to leaves all walks alone.
proof fn lemma_walk_with_more(
    m: TablesModel,
    after: Map<u64, Seq<u64>>,
    root: u64,
    va: u64,
    level: int,
)
    requires
        m.wf(),
        m.is_root(root),
        0 <= level <= 3,
        table_at(m.tables, root, va, level) is Some,
        forall|t: u64| m.tables.contains_key(t) ==> #[trigger] after[t] == m.tables[t],
    ensures
        ({
            let here = table_at(m.tables, root, va, level)->0;
            lookup_from(after, here, level, va) == lookup_from(m.tables, here, level, va)
        }),
    decreases 3 - level,
{
    let here = table_at(m.tables, root, va, level)->0;
    lemma_table_at_level(m, root, va, level);
    let i = index_at(va, level);
    let entry = m.tables[here][i];
    assert(after[here] == m.tables[here]);
    if level < 3 && entry_is_table(entry) {
        assert(m.links(here, i));
        assert(table_at(m.tables, root, va, level + 1) == Some(entry_addr(entry)));
        lemma_walk_with_more(m, after, root, va, level + 1);
    }
}

/// A tree that was not there before shares nothing with those that were.
pub(crate) proof fn lemma_new_tree_keeps_all(before: TablesModel, after: TablesModel, root: u64)
    requires
        after.keeps_others(before, root),
        !before.tables.contains_key(root),
    ensures
        after.keeps_all(before),
{
    assert forall|other: u64| before.is_root(other) implies #[trigger] after.is_root(other)
        && after.translates_like(before, other) by {
        assert(other != root);
        assert(after.is_root(other));
        assert(after.follows(before, root, other));
        assert forall|va: u64| #[trigger] after.lookup(other, va) == before.lookup(other, va) by {
            assert(!before.shares(root, other, va));
        }
    }
}

/// Two changes that keep the other trees keep them together.
pub(crate) proof fn lemma_kept_twice(
    a: TablesModel,
    b: TablesModel,
    c: TablesModel,
    root: u64,
)
    requires
        b.keeps_others(a, root),
        c.keeps_others(b, root),
    ensures
        c.keeps_others(a, root),
{
    assert forall|other: u64| a.is_root(other) && other != root implies #[trigger] c.is_root(other)
        && c.follows(a, root, other) by {
        assert(a.is_root(other));
        assert(b.is_root(other));
        assert(b.follows(a, root, other));
        assert(c.is_root(other));
        assert(c.follows(b, root, other));
        assert forall|va: u64| #[trigger] c.lookup(other, va) == if a.shares(root, other, va) {
            c.lookup(root, va)
        } else {
            a.lookup(other, va)
        } by {
            assert(b.shares(root, other, va) == a.shares(root, other, va));
            assert(b.lookup(other, va) == if a.shares(root, other, va) {
                b.lookup(root, va)
            } else {
                a.lookup(other, va)
            });
        }
        assert forall|va: u64| #[trigger] c.shares(root, other, va) == a.shares(root, other, va) by {
            assert(b.shares(root, other, va) == a.shares(root, other, va));
        }
    }
}

/// The effect of putting an entry where none was: the addresses that take it
/// are mapped by it, all others as before.
pub(crate) proof fn lemma_put_entry(
    m: TablesModel,
    root: u64,
    va: u64,
    level: int,
    entry: u64,
    other: u64,
)
    requires
        m.wf(),
        m.is_root(root),
        0 <= level <= 3,
        table_at(m.tables, root, va, level) is Some,
        level < 3 ==> !entry_is_table(entry),
    ensures
        ({
            let table = table_at(m.tables, root, va, level)->0;
            let after = m.with_entry(table, index_at(va, level), entry);
            after.lookup(root, other) == if same_entry(other, va, level) {
                mapped_by(entry, level, other)
            } else {
                m.lookup(root, other)
            }
        }),
{
    lemma_table_at_level(m, root, va, level);
    let table = table_at(m.tables, root, va, level)->0;
    let index = index_at(va, level);
    let after = m.with_entry(table, index, entry);
    lemma_passes_iff(m, root, va, other, level);
    if same_entry(other, va, level) {
        lemma_way_unchanged(m, after.tables, root, other, level, table);
        lemma_lookup_from_way(after.tables, root, other, level);
        assert(index_at(other, level) == index);
    } else {
        lemma_walk_unchanged(m, after.tables, root, other, 0, table, index);
    }
}

/// Putting an entry that leads nowhere keeps the trees trees.
pub(crate) proof fn lemma_put_entry_wf(m: TablesModel, table: u64, index: int, entry: u64)
    requires
        m.wf(),
        m.tables.contains_key(table),
        0 <= index < 512,
        m.levels[table] < 3 ==> !entry_is_table(entry),
    ensures
        m.with_entry(table, index, entry).wf(),
{
    let after = m.with_entry(table, index, entry);
    assert(after.tables.dom() =~= m.tables.dom());
    assert forall|t: u64, i: int| #[trigger] after.links(t, i) implies m.links(t, i)
        && after.tables[t][i] == m.tables[t][i] by {}
}

/// Hanging an empty table below an invalid entry keeps the trees trees and
/// changes no walk.
proof fn lemma_put_child(m: TablesModel, root: u64, table: u64, index: int)
    requires
        m.wf(),
        m.is_root(root),
        m.tables.contains_key(table),
        0 <= index < 512,
        m.levels[table] < 3,
        !entry_valid(m.tables[table][index]),
        m.free.len() > 0,
    ensures
        m.with_child(table, index).wf(),
        m.with_child(table, index).is_root(root),
        m.with_child(table, index).translates_like(m, root),
{
    let child = m.free.last();
    let after = m.with_child(table, index);
    let entry = child | PTE_VALID | PTE_TABLE;
    assert(m.free[m.free.len() - 1] == child);
    assert(frame_address(child) && !m.tables.contains_key(child));
    lemma_table_entry(child);
    lemma_entry_kinds(0);
    lemma_entry_kinds(m.tables[table][index]);
    assert(after.tables.dom() =~= after.levels.dom());
    assert forall|t: u64, i: int| #[trigger] after.links(t, i) implies (t == table && i == index) || (
    m.links(t, i) && after.tables[t][i] == m.tables[t][i] && entry_addr(after.tables[t][i])
        != child) by {
        if t == child {
            assert(after.tables[t][i] == 0);
        } else if !(t == table && i == index) {
            assert(m.links(t, i));
        }
    }
    assert(entry_addr(after.tables[table][index]) == child);
    assert forall|k: int| 0 <= k < after.free.len() implies frame_address(
        #[trigger] after.free[k],
    ) && !after.tables.contains_key(after.free[k]) by {
        assert(after.free[k] == m.free[k]);
        assert(m.free[k] != m.free[m.free.len() - 1]);
    }
    assert forall|va: u64| #[trigger] after.lookup(root, va) == m.lookup(root, va) by {
        let level = m.levels[table];
        if passes(m.tables, root, va, level, table, index) {
            lemma_way_unchanged(m, after.tables, root, va, level, table);
            lemma_lookup_from_way(after.tables, root, va, level);
            lemma_lookup_from_way(m.tables, root, va, level);
            assert(after.tables[child][index_at(va, level + 1)] == 0);
            assert(lookup_from(after.tables, child, level + 1, va) is None);
        } else {
            lemma_walk_unchanged(m, after.tables, root, va, 0, table, index);
        }
    }
}

/// Hanging a table below the way to an address lengthens that way by one.
pub(crate) proof fn lemma_child_lengthens(m: TablesModel, root: u64, va: u64, level: int)
    requires
        m.wf(),
        m.is_root(root),
        0 <= level < 3,
        table_at(m.tables, root, va, level) is Some,
        !entry_valid(m.tables[table_at(m.tables, root, va, level)->0][index_at(va, level)]),
        m.free.len() > 0,
    ensures
        ({
            let table = table_at(m.tables, root, va, level)->0;
            let after = m.with_child(table, index_at(va, level));
            &&& table_at(after.tables, root, va, level + 1) == Some(m.free.last())
            &&& after.tables[m.free.last()] == empty_entries()
        }),
{
    lemma_table_at_level(m, root, va, level);
    let table = table_at(m.tables, root, va, level)->0;
    let index = index_at(va, level);
    let after = m.with_child(table, index);
    let child = m.free.last();
    assert(m.free[m.free.len() - 1] == child);
    lemma_table_entry(child);
    lemma_way_unchanged(m, after.tables, root, va, level, table);
    assert(after.tables[table][index] == child | PTE_VALID | PTE_TABLE);
}

/// Putting an entry does not change the ways that do not pass it.
proof fn lemma_way_not_passing(
    m: TablesModel,
    after: Map<u64, Seq<u64>>,
    root: u64,
    va: u64,
    level: int,
    table: u64,
    index: int,
)
    requires
        m.wf(),
        m.is_root(root),
        m.tables.contains_key(table),
        0 <= index < 512,
        0 <= level <= 3,
        !passes(m.tables, root, va, m.levels[table], table, index),
        forall|t: u64|
            m.tables.contains_key(t) && t != table ==> #[trigger] after[t] == m.tables[t],
        after[table].len() == 512,
        forall|i: int| 0 <= i < 512 && i != index ==> #[trigger] after[table][i]
            == m.tables[table][i],
    ensures
        table_at(after, root, va, level) == table_at(m.tables, root, va, level),
    decreases level,
{
    if level > 0 {
        lemma_way_not_passing(m, after, root, va, level - 1, table, index);
        lemma_table_at_level(m, root, va, level - 1);
    }
}

/// Putting an entry that leads nowhere lays no way and takes none away.
pub(crate) proof fn lemma_put_entry_ways(
    m: TablesModel,
    root: u64,
    va: u64,
    level: int,
    entry: u64,
    other: u64,
    l: int,
)
    requires
        m.wf(),
        m.is_root(root),
        0 <= level <= 3,
        0 <= l <= 3,
        m.laid(root, va, level),
        level < 3 ==> !entry_is_table(entry),
        level < 3 ==> !entry_is_table(
            m.tables[table_at(m.tables, root, va, level)->0][index_at(va, level)],
        ),
    ensures
        m.with_entry(
            table_at(m.tables, root, va, level)->0,
            index_at(va, level),
            entry,
        ).laid(root, other, l) == m.laid(root, other, l),
{
    lemma_table_at_level(m, root, va, level);
    let table = table_at(m.tables, root, va, level)->0;
    let index = index_at(va, level);
    let after = m.with_entry(table, index, entry);
    if passes(m.tables, root, other, level, table, index) {
        lemma_way_unchanged(m, after.tables, root, other, level, table);
        if l <= level {
            lemma_way_unchanged(m, after.tables, root, other, l, table);
        } else {
            assert(!after.laid(root, other, level + 1));
            assert(!m.laid(root, other, level + 1));
            if after.laid(root, other, l) {
                lemma_table_at_above(after.tables, root, other, l, level + 1);
            }
            if m.laid(root, other, l) {
                lemma_table_at_above(m.tables, root, other, l, level + 1);
            }
        }
    } else {
        lemma_way_not_passing(m, after.tables, root, other, l, table, index);
    }
}

/// Hanging a table below the way to an address lays the way for all addresses
/// that take the same entry, one level down, and no other.
pub(crate) proof fn lemma_put_child_ways(
    m: TablesModel,
    root: u64,
    va: u64,
    level: int,
    other: u64,
    l: int,
)
    requires
        m.wf(),
        m.is_root(root),
        0 <= level < 3,
        0 <= l <= 3,
        m.laid(root, va, level),
        !entry_valid(m.tables[table_at(m.tables, root, va, level)->0][index_at(va, level)]),
        m.free.len() > 0,
    ensures
        m.with_child(table_at(m.tables, root, va, level)->0, index_at(va, level)).laid(
            root,
            other,
            l,
        ) <==> m.laid(root, other, l) || (l == level + 1 && same_entry(other, va, level)),
{
    lemma_table_at_level(m, root, va, level);
    let table = table_at(m.tables, root, va, level)->0;
    let index = index_at(va, level);
    let after = m.with_child(table, index);
    let child = m.free.last();
    assert(m.free[m.free.len() - 1] == child);
    lemma_passes_iff(m, root, va, other, level);
    lemma_entry_kinds(m.tables[table][index]);
    if same_entry(other, va, level) {
        if l <= level {
            lemma_way_unchanged(m, after.tables, root, other, l, table);
        } else {
            lemma_child_lengthens(m, root, va, level);
            lemma_put_child(m, root, table, index);
            lemma_way_unchanged(m, after.tables, root, other, level, table);
            assert(index_at(other, level) == index);
            assert(table_at(after.tables, root, other, level + 1) == Some(child)) by {
                lemma_table_entry(child);
                assert(after.tables[table][index] == child | PTE_VALID | PTE_TABLE);
            }
            assert(!m.laid(root, other, level + 1));
            if m.laid(root, other, l) {
                lemma_table_at_above(m.tables, root, other, l, level + 1);
            }
            if l > level + 1 {
                assert(after.tables[child][index_at(other, level + 1)] == 0);
                lemma_entry_kinds(0);
                assert(!after.laid(root, other, level + 2));
                if after.laid(root, other, l) {
                    lemma_table_at_above(after.tables, root, other, l, level + 2);
                }
            }
        }
    } else {
        lemma_way_not_passing(m, after.tables, root, other, l, table, index);
    }
}

/// The lowest table on a way exists, and its entry decides the translation.
pub(crate) proof fn lemma_way_facts(m: TablesModel, root: u64, va: u64)
    requires
        m.wf(),
        m.is_root(root),
    ensures
        0 <= m.depth(root, va) <= 3,
        m.laid(root, va, m.depth(root, va)),
        table_at(m.tables, root, va, 0) == Some(root),
        m.depth(root, va) < 3 ==> !entry_is_table(m.last_entry(root, va)),
        m.lookup(root, va) == mapped_by(m.last_entry(root, va), m.depth(root, va), va),
        m.lookup(root, va) is Some <==> entry_valid(m.last_entry(root, va)),
        forall|l: int| 0 <= l <= 3 ==> (#[trigger] m.laid(root, va, l) <==> l <= m.depth(root, va)),
{
    let depth = m.depth(root, va);
    assert(m.laid(root, va, 0));
    if depth < 3 {
        assert(depth + 1 == 1 || depth + 1 == 2 || depth + 1 == 3);
        assert(!m.laid(root, va, depth + 1));
    }
    assert forall|l: int| 0 <= l <= 3 implies (#[trigger] m.laid(root, va, l) <==> l <= depth) by {
        if l <= depth {
            lemma_table_at_above(m.tables, root, va, depth, l);
        } else if m.laid(root, va, l) {
            lemma_table_at_above(m.tables, root, va, l, depth + 1);
        }
    }
    lemma_lookup_from_way(m.tables, root, va, depth);
    lemma_entry_kinds(m.last_entry(root, va));
}

/// Addresses of one page are mapped or unmapped together.
pub(crate) proof fn lemma_lookup_by_page(m: TablesModel, root: u64, a: u64, b: u64)
    requires
        m.wf(),
        m.is_root(root),
        same_entry(a, b, 3),
    ensures
        m.lookup(root, a) is Some <==> m.lookup(root, b) is Some,
        m.depth(root, a) == m.depth(root, b),
{
    lemma_way_by_indices(m.tables, root, a, b, 1);
    lemma_way_by_indices(m.tables, root, a, b, 2);
    lemma_way_by_indices(m.tables, root, a, b, 3);
    lemma_way_facts(m, root, a);
    lemma_way_facts(m, root, b);
    let depth = m.depth(root, a);
    assert(index_at(a, depth) == index_at(b, depth));
}

// ---------------------------------------------------------------------------
// Table memory and walker
// ---------------------------------------------------------------------------

/// Why a mapping could not be changed.
#[derive(Debug, Clone, Copy, PartialEq, Eq, Structural)]
pub enum MapError {
    /// A block is mapped where a table is needed.
    EntryIsBlock,
    /// No frame is left for a table.
    OutOfMemory,
    PageAlreadyMapped,
    L1AlreadyMapped,
    L2AlreadyMapped,
    NotAlignedTo1GiB,
    NotAlignedTo2MiB,
    L1TableNotPresent,
    L2TableNotPresent,
    L3TableNotPresent,
    PageNotMapped,
}

/// Frames that hold tables, and frames that can. Its view is a
/// [`TablesModel`].
pub struct TableMemory {
    tables: BTreeMap<u64, PageTable>,
    free: Vec<u64>,
    levels: Ghost<Map<u64, int>>,
}

impl View for TableMemory {
    type V = TablesModel;

    closed spec fn view(&self) -> TablesModel {
        TablesModel {
            tables: self.tables@.map_values(|table: PageTable| table@),
            levels: self.levels@,
            free: self.free@,
        }
    }
}

impl TableMemory {
    pub fn new() -> (memory: Self)
        ensures
            memory@.wf(),
            memory@.tables == Map::<u64, Seq<u64>>::empty(),
            memory@.free == Seq::<u64>::empty(),
    {
        let memory = TableMemory {
            tables: BTreeMap::new(),
            free: Vec::new(),
            levels: Ghost(Map::empty()),
        };
        assert(memory@.tables =~= Map::<u64, Seq<u64>>::empty());
        assert(memory@.levels =~= Map::<u64, int>::empty());
        memory
    }

    /// Take over a table that stands in a frame.
    pub(crate) fn adopt(&mut self, frame: u64, table: PageTable, level: Ghost<int>)
        ensures
            final(self)@ == (TablesModel {
                tables: old(self)@.tables.insert(frame, table@),
                levels: old(self)@.levels.insert(frame, level@),
                free: old(self)@.free,
            }),
    {
        let ghost before = self@;
        self.tables.insert(frame, table);
        proof {
            self.levels@ = self.levels@.insert(frame, level@);
            assert(self@.tables =~= before.tables.insert(frame, table@));
        }
    }

    /// Give a frame that can become a table. Refused if it is no frame address
    /// or already here.
    pub fn donate(&mut self, frame: u64) -> (accepted: bool)
        requires
            old(self)@.wf(),
        ensures
            final(self)@.wf(),
            accepted == (frame_address(frame) && !old(self)@.tables.contains_key(frame)
                && !old(self)@.free.contains(frame)),
            final(self)@ == if accepted {
                TablesModel { free: old(self)@.free.push(frame), ..old(self)@ }
            } else {
                old(self)@
            },
    {
        if frame % PAGE_SIZE != 0 || frame > PTE_ADDR_MASK || self.tables.contains_key(&frame) {
            return false;
        }
        let mut i: usize = 0;
        while i < self.free.len()
            invariant
                i <= self.free@.len(),
                self@ == old(self)@,
                self@.wf(),
                forall|k: int| 0 <= k < i ==> #[trigger] self.free@[k] != frame,
            decreases self.free@.len() - i,
        {
            if self.free[i] == frame {
                assert(self@.free.contains(frame));
                return false;
            }
            i = i + 1;
        }
        let ghost before = self@;
        self.free.push(frame);
        proof {
            let after = self@;
            assert(after.tables =~= before.tables);
            assert forall|t: u64, j: int| #[trigger] after.links(t, j) implies before.links(t, j) by {}
        }
        true
    }

    /// Make the next free frame an empty table of the top level.
    pub fn new_root(&mut self) -> (root: Option<u64>)
        requires
            old(self)@.wf(),
        ensures
            final(self)@.wf(),
            match root {
                Some(root) => {
                    let before = old(self)@;
                    &&& final(self)@.keeps_others(before, root)
                    &&& !before.tables.contains_key(root)
                    &&& before.free.len() > 0
                    &&& root == before.free.last()
                    &&& final(self)@ == (TablesModel {
                        tables: before.tables.insert(root, empty_entries()),
                        levels: before.levels.insert(root, 0),
                        free: before.free.drop_last(),
                    })
                },
                None => old(self)@.free.len() == 0 && final(self)@ == old(self)@,
            },
    {
        let ghost before = self@;
        let root: u64 = match self.free.pop() {
            Some(frame) => frame,
            None => {
                return None;
            },
        };
        self.tables.insert(root, PageTable::empty());
        proof {
            self.levels@ = self.levels@.insert(root, 0);
            lemma_entry_kinds(0);
            let after = self@;
            assert(before.free[before.free.len() - 1] == root);
            assert(after.tables =~= before.tables.insert(root, empty_entries()));
            assert(after.tables.dom() =~= after.levels.dom());
            assert forall|t: u64, i: int| #[trigger] after.links(t, i) implies before.links(t, i)
                && after.tables[t][i] == before.tables[t][i] && t != root by {
                if t == root {
                    assert(after.tables[t][i] == 0);
                }
            }
            assert forall|k: int| 0 <= k < after.free.len() implies frame_address(
                #[trigger] after.free[k],
            ) && !after.tables.contains_key(after.free[k]) by {
                assert(after.free[k] == before.free[k]);
                assert(before.free[k] != before.free[before.free.len() - 1]);
            }
            assert forall|other: u64| before.is_root(other) && other != root implies
                #[trigger] after.is_root(other) && after.follows(before, root, other) by {
                assert(before.tables.contains_key(other));
                assert forall|va: u64| #[trigger] after.lookup(other, va) == before.lookup(
                    other,
                    va,
                ) by {
                    lemma_walk_with_more(before, after.tables, other, va, 0);
                }
                assert forall|va: u64| !#[trigger] after.shares(root, other, va) by {
                    assert(after.tables[root][index_at(va, 0)] == 0);
                    assert(table_at(after.tables, root, va, 0) == Some(root));
                }
            }
        }
        Some(root)
    }

    /// An entry of a table.
    pub fn entry(&self, table: u64, index: usize) -> (entry: PageTableEntry)
        requires
            self@.wf(),
            self@.tables.contains_key(table),
            index < ENTRIES_PER_TABLE,
        ensures
            entry.0 == self@.tables[table][index as int],
    {
        match self.tables.get(&table) {
            Some(found) => *found.entry(index),
            None => {
                assert(false);
                PageTableEntry(0)
            },
        }
    }

    /// Put an entry.
    pub(crate) fn put(&mut self, table: u64, index: usize, entry: PageTableEntry)
        requires
            old(self)@.wf(),
            old(self)@.tables.contains_key(table),
            index < ENTRIES_PER_TABLE,
        ensures
            final(self)@ == old(self)@.with_entry(table, index as int, entry.0),
    {
        let ghost before = self@;
        match self.tables.remove(&table) {
            Some(mut found) => {
                found.put(index, entry);
                self.tables.insert(table, found);
                assert(self@.tables =~= before.with_entry(table, index as int, entry.0).tables);
            },
            None => {
                assert(false);
            },
        }
    }

    /// The table below an entry; if there is none, a new one.
    pub(crate) fn get_or_create_table(
        &mut self,
        table: u64,
        index: usize,
        root: Ghost<u64>,
    ) -> (result: Result<
        u64,
        MapError,
    >)
        requires
            old(self)@.wf(),
            old(self)@.is_root(root@),
            old(self)@.tables.contains_key(table),
            old(self)@.levels[table] < 3,
            index < ENTRIES_PER_TABLE,
        ensures
            final(self)@.wf(),
            final(self)@.is_root(root@),
            ({
                let before = old(self)@;
                let entry = before.tables[table][index as int];
                if entry_is_table(entry) {
                    &&& result == Ok::<u64, MapError>(entry_addr(entry))
                    &&& final(self)@ == before
                } else if entry_valid(entry) {
                    &&& result == Err::<u64, MapError>(MapError::EntryIsBlock)
                    &&& final(self)@ == before
                } else if before.free.len() == 0 {
                    &&& result == Err::<u64, MapError>(MapError::OutOfMemory)
                    &&& final(self)@ == before
                } else {
                    &&& result == Ok::<u64, MapError>(before.free.last())
                    &&& final(self)@ == before.with_child(table, index as int)
                    &&& final(self)@.translates_like(before, root@)
                }
            }),
    {
        let ghost before = self@;
        let entry = self.entry(table, index);
        proof {
            lemma_entry_kinds(entry.0);
        }
        if entry.is_valid() {
            if !entry.is_table() {
                return Err(MapError::EntryIsBlock);
            }
            return Ok(entry.addr());
        }
        let frame: u64 = match self.free.pop() {
            Some(frame) => frame,
            None => {
                return Err(MapError::OutOfMemory);
            },
        };
        proof {
            assert(before.free[before.free.len() - 1] == frame);
            lemma_put_child(before, root@, table, index as int);
            let popped = self@;
            assert(popped.tables =~= before.tables);
            assert forall|t: u64, j: int| #[trigger] popped.links(t, j) implies before.links(
                t,
                j,
            ) by {}
            assert forall|k: int| 0 <= k < popped.free.len() implies popped.free[k]
                == before.free[k] by {}
            assert(popped.wf());
        }
        self.put(table, index, PageTableEntry::table(frame));
        self.tables.insert(frame, PageTable::empty());
        proof {
            self.levels@ = self.levels@.insert(frame, before.levels[table] + 1);
            assert(self@.tables =~= before.with_child(table, index as int).tables);
            assert(self@ =~= before.with_child(table, index as int));
        }
        Ok(frame)
    }
}

/// Why a request to map at `level` is refused. `taken` is for an address whose
/// entry there is in use.
pub open spec fn map_error(
    m: TablesModel,
    root: u64,
    va: u64,
    level: int,
    taken: MapError,
) -> Option<MapError> {
    let depth = m.depth(root, va);
    if depth > level || (depth == level && m.lookup(root, va) is Some) {
        Some(taken)
    } else if m.lookup(root, va) is Some {
        Some(MapError::EntryIsBlock)
    } else if m.free.len() < level - depth {
        Some(MapError::OutOfMemory)
    } else {
        None
    }
}

/// The outcome of a request to map at `level`. Refused: all translations are as
/// they were, and only a lack of frames leaves new empty tables. Granted: the
/// addresses of that entry are mapped by `entry`, all others as before, and the
/// tables that were missing on the way have been made of free frames.
pub open spec fn map_outcome(
    before: TablesModel,
    after: TablesModel,
    root: u64,
    va: u64,
    level: int,
    entry: u64,
    taken: MapError,
    result: Result<(), MapError>,
) -> bool {
    match map_error(before, root, va, level, taken) {
        Some(error) => {
            &&& result == Err::<(), MapError>(error)
            &&& after.translates_like(before, root)
            &&& after.keeps_others(before, root)
            &&& if error == MapError::OutOfMemory {
                &&& after.free.len() == 0
                &&& forall|other: u64, l: int|
                    0 <= l <= 3 && #[trigger] after.laid(root, other, l) ==> before.laid(
                        root,
                        other,
                        l,
                    ) || (l <= level && same_above(other, va, l))
            } else {
                after == before
            }
        },
        None => {
            &&& result == Ok::<(), MapError>(())
            &&& after.keeps_others(before, root)
            &&& after.free == before.free.subrange(
                0,
                before.free.len() - (level - before.depth(root, va)),
            )
            &&& forall|other: u64, l: int|
                0 <= l <= 3 ==> (#[trigger] after.laid(root, other, l) <==> before.laid(
                    root,
                    other,
                    l,
                ) || (l <= level && same_above(other, va, l)))
            &&& forall|other: u64| #[trigger]
                after.lookup(root, other) == if same_entry(other, va, level) {
                    mapped_by(entry, level, other)
                } else {
                    before.lookup(root, other)
                }
        },
    }
}

/// The outcome of a request to unmap a page: refused without any change, or the
/// page unmapped and everything else as it was.
pub open spec fn unmap_outcome(
    before: TablesModel,
    after: TablesModel,
    root: u64,
    va: u64,
    result: Result<u64, MapError>,
) -> bool {
    let depth = before.depth(root, va);
    if depth < 3 {
        &&& result == Err::<u64, MapError>(
            if depth == 0 {
                MapError::L1TableNotPresent
            } else if depth == 1 {
                MapError::L2TableNotPresent
            } else {
                MapError::L3TableNotPresent
            },
        )
        &&& after == before
    } else {
        match before.lookup(root, va) {
            None => {
                &&& result == Err::<u64, MapError>(MapError::PageNotMapped)
                &&& after == before
            },
            Some((addr, entry)) => {
                &&& result == Ok::<u64, MapError>(entry_addr(entry))
                &&& after.keeps_others(before, root)
                &&& after.free == before.free
                &&& forall|other: u64, l: int|
                    0 <= l <= 3 ==> #[trigger] after.laid(root, other, l) == before.laid(
                        root,
                        other,
                        l,
                    )
                &&& forall|other: u64| #[trigger]
                    after.lookup(root, other) == if same_entry(other, va, 3) {
                        None
                    } else {
                        before.lookup(root, other)
                    }
            },
        }
    }
}

/// Law: unmapping a page that was just mapped gives its physical frame back and
/// restores every translation.
pub proof fn law_unmap_undoes_map(
    before: TablesModel,
    mapped: TablesModel,
    after: TablesModel,
    root: u64,
    va: u64,
    entry: u64,
    result: Result<u64, MapError>,
)
    requires
        before.wf(),
        before.is_root(root),
        entry_valid(entry),
        map_outcome(
            before,
            mapped,
            root,
            va,
            3,
            entry,
            MapError::PageAlreadyMapped,
            Ok::<(), MapError>(()),
        ),
        unmap_outcome(mapped, after, root, va, result),
    ensures
        result == Ok::<u64, MapError>(entry_addr(entry)),
        after.translates_like(before, root),
{
    assert(mapped.laid(root, va, 3));
    assert(same_entry(va, va, 3));
    assert(mapped.lookup(root, va) == mapped_by(entry, 3, va));
    assert forall|other: u64| #[trigger] after.lookup(root, other) == before.lookup(root, other) by {
        assert(mapped.lookup(root, other) == if same_entry(other, va, 3) {
            mapped_by(entry, 3, other)
        } else {
            before.lookup(root, other)
        });
        if same_entry(other, va, 3) {
            lemma_lookup_by_page(before, root, other, va);
        }
    }
}

/// Pages that `size` bytes take.
pub open spec fn page_count(size: u64) -> nat {
    ((size + 4095) / 4096) as nat
}

/// The address of the page `i` after `start`.
pub open spec fn page_at(start: int, i: int) -> u64 {
    (start + i * 4096) as u64
}

/// One page more of a range: mapped, unless one before it was refused.
pub open spec fn range_step(
    mid: TablesModel,
    after: TablesModel,
    root: u64,
    va: u64,
    entry: u64,
    sofar: Result<(), MapError>,
    result: Result<(), MapError>,
) -> bool {
    &&& mid.wf()
    &&& mid.is_root(root)
    &&& match sofar {
        Err(_) => after == mid && result == sofar,
        Ok(_) => map_outcome(
            mid,
            after,
            root,
            va,
            3,
            entry,
            MapError::PageAlreadyMapped,
            result,
        ),
    }
}

/// The outcome of a request to map `n` pages one after another, which stops at
/// the first that is refused.
pub open spec fn range_outcome(
    before: TablesModel,
    after: TablesModel,
    root: u64,
    virt: int,
    phys: int,
    n: nat,
    flags: u64,
    result: Result<(), MapError>,
) -> bool
    decreases n,
{
    if n == 0 {
        after == before && result == Ok::<(), MapError>(())
    } else {
        exists|mid: TablesModel, sofar: Result<(), MapError>|
            #![trigger range_step(mid, after, root, page_at(virt, n - 1), page_at(phys, n - 1) | flags, sofar, result)]
            range_outcome(before, mid, root, virt, phys, (n - 1) as nat, flags, sofar)
                && range_step(
                mid,
                after,
                root,
                page_at(virt, n - 1),
                page_at(phys, n - 1) | flags,
                sofar,
                result,
            )
    }
}

/// A range is mapped one page after another.
proof fn lemma_range_split(
    before: TablesModel,
    after: TablesModel,
    root: u64,
    virt: int,
    phys: int,
    n: nat,
    flags: u64,
    result: Result<(), MapError>,
) -> (split: (TablesModel, Result<(), MapError>))
    requires
        n > 0,
        range_outcome(before, after, root, virt, phys, n, flags, result),
    ensures
        range_outcome(before, split.0, root, virt, phys, (n - 1) as nat, flags, split.1),
        range_step(
            split.0,
            after,
            root,
            page_at(virt, n - 1),
            page_at(phys, n - 1) | flags,
            split.1,
            result,
        ),
{
    choose|mid: TablesModel, sofar: Result<(), MapError>|
        #![trigger range_step(mid, after, root, page_at(virt, n - 1), page_at(phys, n - 1) | flags, sofar, result)]
        range_outcome(before, mid, root, virt, phys, (n - 1) as nat, flags, sofar) && range_step(
            mid,
            after,
            root,
            page_at(virt, n - 1),
            page_at(phys, n - 1) | flags,
            sofar,
            result,
        )
}

/// One more page makes the range longer.
pub(crate) proof fn lemma_range_join(
    before: TablesModel,
    mid: TablesModel,
    after: TablesModel,
    root: u64,
    virt: int,
    phys: int,
    n: nat,
    flags: u64,
    sofar: Result<(), MapError>,
    result: Result<(), MapError>,
)
    requires
        range_outcome(before, mid, root, virt, phys, n, flags, sofar),
        range_step(
            mid,
            after,
            root,
            page_at(virt, n as int),
            page_at(phys, n as int) | flags,
            sofar,
            result,
        ),
    ensures
        range_outcome(before, after, root, virt, phys, n + 1, flags, result),
{
    assert((n + 1 - 1) as nat == n);
    assert(range_step(
        mid,
        after,
        root,
        page_at(virt, (n + 1) as nat - 1),
        page_at(phys, (n + 1) as nat - 1) | flags,
        sofar,
        result,
    ));
}

/// A refused page ends the range.
proof fn lemma_range_stops(
    before: TablesModel,
    after: TablesModel,
    root: u64,
    virt: int,
    phys: int,
    n: nat,
    total: nat,
    flags: u64,
    result: Result<(), MapError>,
)
    requires
        n <= total,
        range_outcome(before, after, root, virt, phys, n, flags, result),
        result is Err,
        after.wf(),
        after.is_root(root),
    ensures
        range_outcome(before, after, root, virt, phys, total, flags, result),
    decreases total - n,
{
    if n < total {
        lemma_range_join(before, after, after, root, virt, phys, n, flags, result, result);
        lemma_range_stops(before, after, root, virt, phys, n + 1, total, flags, result);
    }
}

/// Of the first `n` pages of a range, the last one that an address lies in.
pub open spec fn last_page(va: u64, virt: int, n: nat) -> Option<int>
    decreases n,
{
    if n == 0 {
        None
    } else if same_entry(va, page_at(virt, n - 1), 3) {
        Some(n - 1)
    } else {
        last_page(va, virt, (n - 1) as nat)
    }
}

/// Law: after a range was mapped, its pages translate to the physical range and
/// all other addresses as before.
pub proof fn law_range_is_mapped(
    before: TablesModel,
    after: TablesModel,
    root: u64,
    virt: int,
    phys: int,
    n: nat,
    flags: u64,
)
    requires
        range_outcome(before, after, root, virt, phys, n, flags, Ok::<(), MapError>(())),
    ensures
        forall|va: u64| #[trigger]
            after.lookup(root, va) == match last_page(va, virt, n) {
                Some(i) => mapped_by(page_at(phys, i) | flags, 3, va),
                None => before.lookup(root, va),
            },
    decreases n,
{
    if n > 0 {
        let (mid, sofar) = lemma_range_split(
            before,
            after,
            root,
            virt,
            phys,
            n,
            flags,
            Ok::<(), MapError>(()),
        );
        law_range_is_mapped(before, mid, root, virt, phys, (n - 1) as nat, flags);
        assert forall|va: u64| #[trigger]
            after.lookup(root, va) == match last_page(va, virt, n) {
                Some(i) => mapped_by(page_at(phys, i) | flags, 3, va),
                None => before.lookup(root, va),
            } by {
            assert(mid.lookup(root, va) == match last_page(va, virt, (n - 1) as nat) {
                Some(i) => mapped_by(page_at(phys, i) | flags, 3, va),
                None => before.lookup(root, va),
            });
        }
    }
}

/// The way to one of the first `n` pages of a range has the same table of `level`
/// as the way to the address.
pub open spec fn range_takes(va: u64, virt: int, n: int, level: int) -> bool {
    exists|i: int| 0 <= i < n && same_above(va, #[trigger] page_at(virt, i), level)
}

/// Law: mapping a range, even in part, leaves all other address spaces alone, but
/// for what they share.
pub proof fn law_range_keeps_others(
    before: TablesModel,
    after: TablesModel,
    root: u64,
    virt: int,
    phys: int,
    n: nat,
    flags: u64,
    result: Result<(), MapError>,
)
    requires
        range_outcome(before, after, root, virt, phys, n, flags, result),
    ensures
        after.keeps_others(before, root),
    decreases n,
{
    if n > 0 {
        let (mid, sofar) = lemma_range_split(before, after, root, virt, phys, n, flags, result);
        law_range_keeps_others(before, mid, root, virt, phys, (n - 1) as nat, flags, sofar);
        if sofar is Ok {
            lemma_kept_twice(before, mid, after, root);
        }
    } else {
        lemma_kept_unchanged(before, root);
    }
}

/// The level down to which the page at `va` shares its way with the page before.
pub open spec fn shared_depth(va: int) -> int {
    if va % 0x20_0000 != 0 {
        3
    } else if va % 0x4000_0000 != 0 {
        2
    } else if va % 0x80_0000_0000 != 0 {
        1
    } else {
        0
    }
}

/// Frames that the first `n` pages of a range need for tables.
pub open spec fn tables_for(m: TablesModel, root: u64, virt: int, n: nat) -> int
    decreases n,
{
    if n == 0 {
        0
    } else {
        let depth = m.depth(root, page_at(virt, n - 1));
        let shared = if n == 1 {
            0
        } else {
            shared_depth(virt + (n - 1) * 4096)
        };
        tables_for(m, root, virt, (n - 1) as nat) + 3 - if depth >= shared {
            depth
        } else {
            shared
        }
    }
}

/// Below 2^48, the indices of an address are the digits of its page number.
pub(crate) proof fn lemma_digits(a: u64)
    requires
        a < 0x1_0000_0000_0000,
    ensures
        index_at(a, 0) == a as int / 0x80_0000_0000,
        a as int / 0x4000_0000 == 512 * (a as int / 0x80_0000_0000) + index_at(a, 1),
        a as int / 0x20_0000 == 512 * (a as int / 0x4000_0000) + index_at(a, 2),
        a as int / 0x1000 == 512 * (a as int / 0x20_0000) + index_at(a, 3),
        0 <= index_at(a, 1) < 512,
        0 <= index_at(a, 2) < 512,
        0 <= index_at(a, 3) < 512,
{
    let x = a as int;
    vstd::arithmetic::div_mod::lemma_div_denominator(x, 0x4000_0000, 512);
    vstd::arithmetic::div_mod::lemma_div_denominator(x, 0x20_0000, 512);
    vstd::arithmetic::div_mod::lemma_div_denominator(x, 0x1000, 512);
    vstd::arithmetic::div_mod::lemma_fundamental_div_mod(x / 0x4000_0000, 512);
    vstd::arithmetic::div_mod::lemma_fundamental_div_mod(x / 0x20_0000, 512);
    vstd::arithmetic::div_mod::lemma_fundamental_div_mod(x / 0x1000, 512);
}

/// Below 2^48, addresses share a table if the part above it is the same.
pub proof fn lemma_sharing(a: u64, b: u64)
    requires
        a < 0x1_0000_0000_0000,
        b < 0x1_0000_0000_0000,
    ensures
        same_above(a, b, 1) <==> a as int / 0x80_0000_0000 == b as int / 0x80_0000_0000,
        same_above(a, b, 2) <==> a as int / 0x4000_0000 == b as int / 0x4000_0000,
        same_above(a, b, 3) <==> a as int / 0x20_0000 == b as int / 0x20_0000,
        same_entry(a, b, 3) <==> a as int / 0x1000 == b as int / 0x1000,
        same_entry(a, b, 1) <==> a as int / 0x4000_0000 == b as int / 0x4000_0000,
{
    lemma_digits(a);
    lemma_digits(b);
    assert(same_above(a, b, 1) <==> index_at(a, 0) == index_at(b, 0));
    assert(same_above(a, b, 2) <==> index_at(a, 0) == index_at(b, 0) && index_at(a, 1) == index_at(
        b,
        1,
    ));
    assert(same_above(a, b, 3) <==> index_at(a, 0) == index_at(b, 0) && index_at(a, 1) == index_at(
        b,
        1,
    ) && index_at(a, 2) == index_at(b, 2));
    assert(same_entry(a, b, 1) <==> same_above(a, b, 2));
    assert(same_entry(a, b, 3) <==> same_above(a, b, 3) && index_at(a, 3) == index_at(b, 3));
}

/// Law: a range of unmapped pages is mapped if and only if the free frames are
/// enough for the tables that it needs, and it takes exactly those; the ways of
/// the range are then laid, and no others.
pub proof fn law_range_success(
    before: TablesModel,
    after: TablesModel,
    root: u64,
    virt: int,
    phys: int,
    n: nat,
    flags: u64,
    result: Result<(), MapError>,
)
    requires
        before.wf(),
        before.is_root(root),
        0 <= virt,
        virt % 4096 == 0,
        virt + n * 4096 <= 0x1_0000_0000_0000,
        forall|i: int| 0 <= i < n ==> before.lookup(root, #[trigger] page_at(virt, i)) is None,
        range_outcome(before, after, root, virt, phys, n, flags, result),
    ensures
        tables_for(before, root, virt, n) >= 0,
        if tables_for(before, root, virt, n) <= before.free.len() {
            &&& result == Ok::<(), MapError>(())
            &&& after.free == before.free.subrange(
                0,
                before.free.len() - tables_for(before, root, virt, n),
            )
            &&& forall|va: u64, l: int|
                0 <= l <= 3 ==> (#[trigger] after.laid(root, va, l) <==> before.laid(root, va, l)
                    || range_takes(va, virt, n as int, l))
        } else {
            &&& result == Err::<(), MapError>(MapError::OutOfMemory)
            &&& after.free.len() == 0
            &&& forall|va: u64, l: int|
                0 <= l <= 3 && #[trigger] after.laid(root, va, l) ==> before.laid(root, va, l)
                    || range_takes(va, virt, n as int, l)
            &&& forall|va: u64|
                last_page(va, virt, n) is None ==> #[trigger] after.lookup(root, va)
                    == before.lookup(root, va)
        },
    decreases n,
{
    if n == 0 {
        assert(before.free.subrange(0, before.free.len() as int) =~= before.free);
    } else {
        let (mid, sofar) = lemma_range_split(before, after, root, virt, phys, n, flags, result);
        let page = page_at(virt, n - 1);
        let so_far = tables_for(before, root, virt, (n - 1) as nat);
        law_range_success(before, mid, root, virt, phys, (n - 1) as nat, flags, sofar);
        lemma_way_facts(before, root, page);
        assert forall|va: u64, l: int| range_takes(va, virt, n - 1, l) || same_above(
            va,
            page,
            l,
        ) implies #[trigger] range_takes(va, virt, n as int, l) by {
            if same_above(va, page, l) {
                assert(0 <= n - 1 < n && same_above(va, page_at(virt, n - 1), l));
            } else {
                let i = choose|i: int|
                    0 <= i < n - 1 && same_above(va, #[trigger] page_at(virt, i), l);
                assert(0 <= i < n && same_above(va, page_at(virt, i), l));
            }
        }
        if sofar is Ok {
            law_range_is_mapped(before, mid, root, virt, phys, (n - 1) as nat, flags);
            lemma_last_page_none(page, virt, (n - 1) as nat, n - 1);
            assert(mid.lookup(root, page) == before.lookup(root, page));
            lemma_way_facts(mid, root, page);
            lemma_depth_in_range(before, mid, root, virt, n);
            if result is Ok {
                assert(after.free =~= before.free.subrange(
                    0,
                    before.free.len() - tables_for(before, root, virt, n),
                ));
                assert forall|va: u64, l: int| 0 <= l <= 3 implies (#[trigger] after.laid(
                    root,
                    va,
                    l,
                ) <==> before.laid(root, va, l) || range_takes(va, virt, n as int, l)) by {
                    assert(mid.laid(root, va, l) <==> before.laid(root, va, l) || range_takes(
                        va,
                        virt,
                        n - 1,
                        l,
                    ));
                    if same_above(va, page, l) {
                        assert(0 <= n - 1 < n && same_above(va, page_at(virt, n - 1), l));
                    }
                }
            }
        }
    }
}

/// No earlier page of a range holds an address of a later one.
proof fn lemma_last_page_none(va: u64, virt: int, n: nat, at: int)
    requires
        0 <= virt,
        virt % 4096 == 0,
        n <= at,
        virt + at * 4096 + 4096 <= 0x1_0000_0000_0000,
        va == page_at(virt, at),
    ensures
        last_page(va, virt, n) is None,
    decreases n,
{
    if n > 0 {
        lemma_sharing(va, page_at(virt, n - 1));
        lemma_last_page_none(va, virt, (n - 1) as nat, at);
    }
}

/// Two pages in a row lie in different parts of size `s` only at a multiple of it.
proof fn lemma_row(x: int, s: int)
    requires
        x >= 4096,
        x % 4096 == 0,
        s == 0x20_0000 || s == 0x4000_0000 || s == 0x80_0000_0000,
    ensures
        (x - 4096) / s == x / s <==> x % s != 0,
{
    let q = x / s;
    let r = x % s;
    vstd::arithmetic::div_mod::lemma_fundamental_div_mod(x, s);
    let k = x / 4096;
    assert(x == 4096 * k);
    assert(r % 4096 == 0) by {
        if s == 0x20_0000 {
            assert(r == 4096 * (k - 0x200 * q));
        } else if s == 0x4000_0000 {
            assert(r == 4096 * (k - 0x4_0000 * q));
        } else {
            assert(r == 4096 * (k - 0x800_0000 * q));
        }
    }
    if r != 0 {
        vstd::arithmetic::div_mod::lemma_fundamental_div_mod_converse(x - 4096, s, q, r - 4096);
    } else {
        assert(x - 4096 == s * (q - 1) + (s - 4096)) by (nonlinear_arith)
            requires
                x == s * q + r,
                r == 0,
        ;
        vstd::arithmetic::div_mod::lemma_fundamental_div_mod_converse(x - 4096, s, q - 1, s - 4096);
    }
}

/// The next page of a range shares with the range what it shares with the page
/// before.
proof fn lemma_range_takes(virt: int, n: nat, level: int)
    requires
        n > 1,
        0 <= virt,
        virt % 4096 == 0,
        virt + n * 4096 <= 0x1_0000_0000_0000,
        1 <= level <= 3,
    ensures
        range_takes(page_at(virt, n - 1), virt, n - 1, level) <==> level <= shared_depth(
            virt + (n - 1) * 4096,
        ),
{
    let page = page_at(virt, n - 1);
    let previous = page_at(virt, n - 2);
    let x = virt + (n - 1) * 4096;
    assert(page as int == x && previous as int == x - 4096);
    lemma_sharing(page, previous);
    lemma_row(x, 0x20_0000);
    lemma_row(x, 0x4000_0000);
    lemma_row(x, 0x80_0000_0000);
    if level <= shared_depth(x) {
        assert(x % 0x4000_0000 == 0 ==> x % 0x20_0000 == 0);
        assert(x % 0x80_0000_0000 == 0 ==> x % 0x4000_0000 == 0);
        assert(same_above(page, previous, level));
        assert(0 <= n - 2 < n - 1 && same_above(page, page_at(virt, n - 2), level));
    }
    if range_takes(page, virt, n - 1, level) {
        let i = choose|i: int|
            0 <= i < n - 1 && same_above(page, #[trigger] page_at(virt, i), level);
        let earlier = page_at(virt, i);
        assert(earlier as int == virt + i * 4096);
        assert(earlier <= previous <= page);
        lemma_sharing(page, earlier);
        assert(same_above(page, previous, level));
    }
}

/// A page of a range that lies in the same part of size `4096 * t` as `x`.
proof fn lemma_page_in_part(x: int, virt: int, last: int, t: int) -> (i: int)
    requires
        0 <= virt <= last,
        virt % 4096 == 0,
        last % 4096 == 0,
        0 <= x,
        t > 0,
        virt / (4096 * t) <= x / (4096 * t) <= last / (4096 * t),
    ensures
        0 <= i,
        virt + i * 4096 <= last,
        (virt + i * 4096) / (4096 * t) == x / (4096 * t),
{
    let s = 4096 * t;
    let q = x / s;
    if virt / s == q {
        0
    } else {
        vstd::arithmetic::div_mod::lemma_fundamental_div_mod(virt, s);
        vstd::arithmetic::div_mod::lemma_fundamental_div_mod(last, s);
        vstd::arithmetic::div_mod::lemma_mod_bound(virt, s);
        vstd::arithmetic::div_mod::lemma_mod_bound(last, s);
        let start = s * q;
        assert(start >= s * (virt / s) + s) by (nonlinear_arith)
            requires
                q >= virt / s + 1,
                start == s * q,
                s > 0,
        ;
        assert(start <= s * (last / s)) by (nonlinear_arith)
            requires
                q <= last / s,
                start == s * q,
                s > 0,
        ;
        assert(start == 4096 * (t * q)) by (nonlinear_arith)
            requires
                start == s * q,
                s == 4096 * t,
        ;
        vstd::arithmetic::div_mod::lemma_div_multiples_vanish(q, s);
        let i = t * q - virt / 4096;
        assert(virt + i * 4096 == start);
        i
    }
}

/// The tables of a level that the ways to a range take.
pub proof fn lemma_range_takes_iff(va: u64, virt: int, n: int, level: int)
    requires
        va < 0x1_0000_0000_0000,
        0 <= virt,
        virt % 4096 == 0,
        n > 0,
        virt + n * 4096 <= 0x1_0000_0000_0000,
        1 <= level <= 3,
    ensures
        ({
            let s = span(level - 1) as int;
            range_takes(va, virt, n, level) <==> virt / s <= va as int / s && va as int / s <= (virt
                + (n - 1) * 4096) / s
        }),
{
    let s = span(level - 1) as int;
    let x = va as int;
    let last = virt + (n - 1) * 4096;
    if range_takes(va, virt, n, level) {
        let i = choose|i: int| 0 <= i < n && same_above(va, #[trigger] page_at(virt, i), level);
        let y = virt + i * 4096;
        assert(page_at(virt, i) as int == y);
        lemma_sharing(va, page_at(virt, i));
        vstd::arithmetic::div_mod::lemma_div_is_ordered(virt, y, s);
        vstd::arithmetic::div_mod::lemma_div_is_ordered(y, last, s);
    }
    if virt / s <= x / s && x / s <= last / s {
        let t: int = if level == 1 {
            0x800_0000
        } else if level == 2 {
            0x4_0000
        } else {
            0x200
        };
        let i = lemma_page_in_part(x, virt, last, t);
        let y = virt + i * 4096;
        assert(page_at(virt, i) as int == y);
        lemma_sharing(va, page_at(virt, i));
        assert(0 <= i < n && same_above(va, page_at(virt, i), level));
    }
}

/// The page of a range that an address below 2^48 lies in.
pub proof fn lemma_last_page(va: u64, virt: int, n: nat)
    requires
        va < 0x1_0000_0000_0000,
        0 <= virt,
        virt % 4096 == 0,
        virt + n * 4096 <= 0x1_0000_0000_0000,
    ensures
        last_page(va, virt, n) == if virt <= va < virt + n * 4096 {
            Some((va - virt) / 4096)
        } else {
            None
        },
    decreases n,
{
    if n > 0 {
        let page = page_at(virt, n - 1);
        let x = va as int;
        let y = virt + (n - 1) * 4096;
        let m = virt / 4096 + (n - 1);
        assert(page as int == y);
        assert(y == 4096 * m);
        lemma_sharing(va, page);
        lemma_last_page(va, virt, (n - 1) as nat);
        vstd::arithmetic::div_mod::lemma_fundamental_div_mod(x, 4096);
        vstd::arithmetic::div_mod::lemma_fundamental_div_mod_converse(y, 4096, m, 0);
        assert(same_entry(va, page, 3) <==> x / 4096 == m);
        assert(x / 4096 == m <==> y <= x < y + 4096);
        if y <= x < y + 4096 {
            vstd::arithmetic::div_mod::lemma_fundamental_div_mod_converse(
                x - virt,
                4096,
                n - 1,
                x - y,
            );
        }
    }
}

/// Pages that share their tables with the page before need no frame.
pub proof fn lemma_tables_flat(m: TablesModel, root: u64, virt: int, first: nat, n: nat)
    requires
        m.wf(),
        m.is_root(root),
        1 <= first <= n,
        forall|i: int| first <= i < n ==> #[trigger] shared_depth(virt + i * 4096) == 3,
    ensures
        tables_for(m, root, virt, n) == tables_for(m, root, virt, first),
    decreases n - first,
{
    if first < n {
        lemma_tables_flat(m, root, virt, first, (n - 1) as nat);
        lemma_way_facts(m, root, page_at(virt, n - 1));
        assert(shared_depth(virt + (n - 1) * 4096) == 3);
    }
}

/// How far the way to the next page of a range is laid once the pages before it
/// are mapped.
proof fn lemma_depth_in_range(before: TablesModel, mid: TablesModel, root: u64, virt: int, n: nat)
    requires
        before.wf(),
        mid.wf(),
        before.is_root(root),
        mid.is_root(root),
        n > 0,
        0 <= virt,
        virt % 4096 == 0,
        virt + n * 4096 <= 0x1_0000_0000_0000,
        forall|va: u64, l: int|
            0 <= l <= 3 ==> (#[trigger] mid.laid(root, va, l) <==> before.laid(root, va, l)
                || range_takes(va, virt, n - 1, l)),
    ensures
        ({
            let depth = before.depth(root, page_at(virt, n - 1));
            let shared = if n == 1 {
                0
            } else {
                shared_depth(virt + (n - 1) * 4096)
            };
            mid.depth(root, page_at(virt, n - 1)) == if depth >= shared {
                depth
            } else {
                shared
            }
        }),
{
    let page = page_at(virt, n - 1);
    lemma_way_facts(before, root, page);
    lemma_way_facts(mid, root, page);
    if n > 1 {
        assert(page as int == virt + (n - 1) * 4096);
        lemma_range_takes(virt, n, 1);
        lemma_range_takes(virt, n, 2);
        lemma_range_takes(virt, n, 3);
    }
    assert(mid.laid(root, page, 1) <==> before.laid(root, page, 1) || range_takes(
        page,
        virt,
        n - 1,
        1,
    ));
    assert(mid.laid(root, page, 2) <==> before.laid(root, page, 2) || range_takes(
        page,
        virt,
        n - 1,
        2,
    ));
    assert(mid.laid(root, page, 3) <==> before.laid(root, page, 3) || range_takes(
        page,
        virt,
        n - 1,
        3,
    ));
}

/// Creates and walks the tables below a root.
#[derive(Debug, Clone, Copy, PartialEq, Eq, Structural)]
pub struct PageTableWalker {
    root: u64,
}

impl PageTableWalker {
    pub closed spec fn spec_root(self) -> u64 {
        self.root
    }

    /// A walker for the table at `root`.
    pub fn new(root: u64) -> (walker: Self)
        ensures
            walker.spec_root() == root,
    {
        PageTableWalker { root }
    }

    /// The physical address of the root table.
    pub fn root_phys(&self) -> (root: u64)
        ensures
            root == self.spec_root(),
    {
        self.root
    }

    /// Lay the way to `virt` down to `level`: the table there.
    fn descend(&self, memory: &mut TableMemory, virt: u64, level: usize) -> (result: Result<
        u64,
        MapError,
    >)
        requires
            old(memory)@.wf(),
            old(memory)@.is_root(self.spec_root()),
            1 <= level <= 3,
        ensures
            final(memory)@.wf(),
            final(memory)@.is_root(self.spec_root()),
            final(memory)@.translates_like(old(memory)@, self.spec_root()),
            final(memory)@.keeps_others(old(memory)@, self.spec_root()),
            ({
                let before = old(memory)@;
                let after = final(memory)@;
                let root = self.spec_root();
                let depth = before.depth(root, virt);
                match result {
                    Ok(table) => {
                        &&& depth >= level || (before.lookup(root, virt) is None
                            && before.free.len() >= level - depth)
                        &&& table_at(after.tables, root, virt, level as int) == Some(table)
                        &&& depth >= level ==> after == before
                        &&& depth < level ==> after.tables[table] == empty_entries()
                        &&& depth < level ==> after.free == before.free.subrange(
                            0,
                            before.free.len() - (level - depth),
                        )
                        &&& forall|other: u64, l: int|
                            0 <= l <= 3 ==> (#[trigger] after.laid(root, other, l) <==> before.laid(
                                root,
                                other,
                                l,
                            ) || (l <= level && same_above(other, virt, l)))
                    },
                    Err(error) => {
                        &&& depth < level
                        &&& if before.lookup(root, virt) is Some {
                            error == MapError::EntryIsBlock && after == before
                        } else {
                            &&& error == MapError::OutOfMemory
                            &&& before.free.len() < level - depth
                            &&& after.free.len() == 0
                            &&& forall|other: u64, l: int|
                                0 <= l <= 3 && #[trigger] after.laid(root, other, l)
                                    ==> before.laid(root, other, l) || (l <= level
                                    && same_above(other, virt, l))
                        }
                    },
                }
            }),
    {
        let indices = va_to_indices(virt);
        let ghost before = memory@;
        let ghost root = self.root;
        let ghost depth = before.depth(root, virt);
        let mut table: u64 = self.root;
        let mut at: usize = 0;
        proof {
            lemma_way_facts(before, root, virt);
            lemma_kept_unchanged(before, root);
            assert forall|other: u64, l: int| 0 <= l <= 3 implies (#[trigger] memory@.laid(
                root,
                other,
                l,
            ) <==> before.laid(root, other, l) || (l <= 0 && same_above(other, virt, l))) by {
                assert(table_at(before.tables, root, other, 0) is Some);
            }
        }
        while at < level
            invariant
                at <= level,
                1 <= level <= 3,
                root == self.root,
                before == old(memory)@,
                before.wf(),
                before.is_root(root),
                depth == before.depth(root, virt),
                0 <= depth <= 3,
                memory@.wf(),
                memory@.is_root(root),
                memory@.translates_like(before, root),
                memory@.keeps_others(before, root),
                table_at(memory@.tables, root, virt, at as int) == Some(table),
                memory@.tables.contains_key(table),
                memory@.levels[table] == at,
                at <= depth ==> memory@ == before,
                at > depth ==> before.lookup(root, virt) is None,
                forall|other: u64, l: int|
                    0 <= l <= 3 ==> (#[trigger] memory@.laid(root, other, l) <==> before.laid(
                        root,
                        other,
                        l,
                    ) || (l <= at && same_above(other, virt, l))),
                at > depth ==> before.free.len() >= at - depth,
                at > depth ==> memory@.tables[table] == empty_entries(),
                at > depth ==> memory@.free == before.free.subrange(
                    0,
                    before.free.len() - (at - depth),
                ),
                forall|l: int|
                    0 <= l < 4 ==> #[trigger] indices@[l] == index_at(virt, l) && indices@[l] < 512,
            decreases level - at,
        {
            let ghost here = memory@;
            let ghost entry = here.tables[table][index_at(virt, at as int)];
            proof {
                lemma_entry_kinds(entry);
                lemma_entry_kinds(0);
                lemma_way_facts(before, root, virt);
                if at > depth {
                    assert(entry == 0);
                } else if at < depth {
                    lemma_table_at_above(before.tables, root, virt, depth, at + 1);
                    assert(entry_is_table(entry));
                } else {
                    assert(entry == before.last_entry(root, virt));
                    assert(!entry_is_table(entry));
                }
            }
            match memory.get_or_create_table(table, indices[at], Ghost(root)) {
                Ok(next) => {
                    proof {
                        if at >= depth {
                            lemma_child_lengthens(here, root, virt, at as int);
                            assert(here.free[here.free.len() - 1] == here.free.last());
                            lemma_table_entry(here.free.last());
                            lemma_others_kept(
                                here,
                                memory@,
                                root,
                                virt,
                                at as int,
                                index_at(virt, at as int),
                            );
                            lemma_kept_twice(before, here, memory@, root);
                            assert(memory@.free =~= before.free.subrange(
                                0,
                                before.free.len() - (at + 1 - depth),
                            ));
                        } else {
                            assert(table_at(here.tables, root, virt, at + 1) == Some(next));
                        }
                        lemma_table_at_level(memory@, root, virt, at + 1);
                        assert forall|other: u64, l: int| 0 <= l <= 3 implies (
                        #[trigger] memory@.laid(root, other, l) <==> before.laid(root, other, l)
                            || (l <= at + 1 && same_above(other, virt, l))) by {
                            assert(here.laid(root, other, l) <==> before.laid(root, other, l) || (l
                                <= at && same_above(other, virt, l)));
                            if at >= depth {
                                lemma_put_child_ways(here, root, virt, at as int, other, l);
                                assert(same_entry(other, virt, at as int) <==> same_above(
                                    other,
                                    virt,
                                    at + 1,
                                ));
                            } else if l == at + 1 && same_above(other, virt, l) {
                                lemma_way_by_indices(before.tables, root, other, virt, l);
                            }
                        }
                        assert forall|va: u64| #[trigger]
                            memory@.lookup(root, va) == before.lookup(root, va) by {
                            assert(here.lookup(root, va) == before.lookup(root, va));
                        }
                    }
                    table = next;
                },
                Err(error) => {
                    return Err(error);
                },
            }
            at = at + 1;
        }
        Ok(table)
    }

    /// Map one page.
    pub fn map_page(&self, memory: &mut TableMemory, virt: u64, phys: u64, flags: u64) -> (result:
        Result<(), MapError>)
        requires
            old(memory)@.wf(),
            old(memory)@.is_root(self.spec_root()),
        ensures
            final(memory)@.wf(),
            final(memory)@.is_root(self.spec_root()),
            map_outcome(
                old(memory)@,
                final(memory)@,
                self.spec_root(),
                virt,
                3,
                phys | flags,
                MapError::PageAlreadyMapped,
                result,
            ),
    {
        self.map_entry(
            memory,
            virt,
            3,
            PageTableEntry::page(phys, flags),
            MapError::PageAlreadyMapped,
        )
    }

    /// Map a block of 1 GiB.
    pub fn map_l1_block(&self, memory: &mut TableMemory, virt: u64, phys: u64, flags: u64)
        -> (result: Result<(), MapError>)
        requires
            old(memory)@.wf(),
            old(memory)@.is_root(self.spec_root()),
        ensures
            final(memory)@.wf(),
            final(memory)@.is_root(self.spec_root()),
            virt % L1_BLOCK_SIZE != 0 || phys % L1_BLOCK_SIZE != 0 ==> {
                &&& result == Err::<(), MapError>(MapError::NotAlignedTo1GiB)
                &&& final(memory)@ == old(memory)@
            },
            virt % L1_BLOCK_SIZE == 0 && phys % L1_BLOCK_SIZE == 0 ==> map_outcome(
                old(memory)@,
                final(memory)@,
                self.spec_root(),
                virt,
                1,
                phys | (flags & !PTE_TABLE) | PTE_VALID,
                MapError::L1AlreadyMapped,
                result,
            ),
    {
        if virt % L1_BLOCK_SIZE != 0 || phys % L1_BLOCK_SIZE != 0 {
            return Err(MapError::NotAlignedTo1GiB);
        }
        proof {
            assert(phys % 0x20_0000 == 0) by (bit_vector)
                requires
                    phys % 0x4000_0000 == 0,
            ;
            lemma_block_entry(phys, flags);
        }
        self.map_entry(
            memory,
            virt,
            1,
            PageTableEntry::block(phys, flags),
            MapError::L1AlreadyMapped,
        )
    }

    /// Map a block of 2 MiB.
    pub fn map_l2_block(&self, memory: &mut TableMemory, virt: u64, phys: u64, flags: u64)
        -> (result: Result<(), MapError>)
        requires
            old(memory)@.wf(),
            old(memory)@.is_root(self.spec_root()),
        ensures
            final(memory)@.wf(),
            final(memory)@.is_root(self.spec_root()),
            virt % L2_BLOCK_SIZE != 0 || phys % L2_BLOCK_SIZE != 0 ==> {
                &&& result == Err::<(), MapError>(MapError::NotAlignedTo2MiB)
                &&& final(memory)@ == old(memory)@
            },
            virt % L2_BLOCK_SIZE == 0 && phys % L2_BLOCK_SIZE == 0 ==> map_outcome(
                old(memory)@,
                final(memory)@,
                self.spec_root(),
                virt,
                2,
                phys | (flags & !PTE_TABLE) | PTE_VALID,
                MapError::L2AlreadyMapped,
                result,
            ),
    {
        if virt % L2_BLOCK_SIZE != 0 || phys % L2_BLOCK_SIZE != 0 {
            return Err(MapError::NotAlignedTo2MiB);
        }
        proof {
            lemma_block_entry(phys, flags);
        }
        self.map_entry(
            memory,
            virt,
            2,
            PageTableEntry::block(phys, flags),
            MapError::L2AlreadyMapped,
        )
    }

    /// Lay the way to `virt` down to `level` and put `entry` there, unless one
    /// is there.
    fn map_entry(
        &self,
        memory: &mut TableMemory,
        virt: u64,
        level: usize,
        entry: PageTableEntry,
        taken: MapError,
    ) -> (result: Result<(), MapError>)
        requires
            old(memory)@.wf(),
            old(memory)@.is_root(self.spec_root()),
            1 <= level <= 3,
            level < 3 ==> !entry_is_table(entry.0),
            taken != MapError::OutOfMemory,
        ensures
            final(memory)@.wf(),
            final(memory)@.is_root(self.spec_root()),
            map_outcome(
                old(memory)@,
                final(memory)@,
                self.spec_root(),
                virt,
                level as int,
                entry.0,
                taken,
                result,
            ),
    {
        let indices = va_to_indices(virt);
        let ghost before = memory@;
        let ghost root = self.root;
        proof {
            lemma_way_facts(before, root, virt);
        }
        let table: u64 = match self.descend(memory, virt, level) {
            Ok(table) => table,
            Err(error) => {
                return Err(error);
            },
        };
        let ghost laid = memory@;
        proof {
            lemma_table_at_level(laid, root, virt, level as int);
            lemma_entry_kinds(0);
            lemma_entry_kinds(laid.tables[table][index_at(virt, level as int)]);
            lemma_way_facts(laid, root, virt);
        }
        assert(indices@[level as int] == index_at(virt, level as int));
        if memory.entry(table, indices[level]).is_valid() {
            return Err(taken);
        }
        proof {
            let depth = before.depth(root, virt);
            if depth > level {
                assert(laid == before);
                lemma_table_at_above(before.tables, root, virt, depth, level + 1);
                assert(entry_is_table(laid.tables[table][index_at(virt, level as int)]));
            }
        }
        memory.put(table, indices[level], entry);
        proof {
            lemma_put_entry_wf(laid, table, index_at(virt, level as int), entry.0);
            lemma_others_kept(
                laid,
                memory@,
                root,
                virt,
                level as int,
                index_at(virt, level as int),
            );
            lemma_kept_twice(before, laid, memory@, root);
            assert forall|other: u64| #[trigger]
                memory@.lookup(root, other) == if same_entry(other, virt, level as int) {
                    mapped_by(entry.0, level as int, other)
                } else {
                    before.lookup(root, other)
                } by {
                lemma_put_entry(laid, root, virt, level as int, entry.0, other);
                assert(laid.lookup(root, other) == before.lookup(root, other));
            }
            assert forall|other: u64, l: int| 0 <= l <= 3 implies (#[trigger] memory@.laid(
                root,
                other,
                l,
            ) <==> before.laid(root, other, l) || (l <= level && same_above(other, virt, l))) by {
                lemma_put_entry_ways(laid, root, virt, level as int, entry.0, other, l);
                assert(laid.laid(root, other, l) <==> before.laid(root, other, l) || (l <= level
                    && same_above(other, virt, l)));
            }
            assert(memory@.free =~= before.free.subrange(
                0,
                before.free.len() - (level - before.depth(root, virt)),
            ));
        }
        Ok(())
    }

    /// Map a range page by page, up to the first page that cannot be mapped.
    pub fn map_range(
        &self,
        memory: &mut TableMemory,
        virt_start: u64,
        phys_start: u64,
        size: u64,
        flags: u64,
    ) -> (result: Result<(), MapError>)
        requires
            old(memory)@.wf(),
            old(memory)@.is_root(self.spec_root()),
            virt_start + size <= u64::MAX,
            phys_start + size <= u64::MAX,
        ensures
            final(memory)@.wf(),
            final(memory)@.is_root(self.spec_root()),
            range_outcome(
                old(memory)@,
                final(memory)@,
                self.spec_root(),
                virt_start as int,
                phys_start as int,
                page_count(size),
                flags,
                result,
            ),
    {
        let pages: u64 = size / PAGE_SIZE + if size % PAGE_SIZE == 0 {
            0
        } else {
            1
        };
        let mut i: u64 = 0;
        while i < pages
            invariant
                i <= pages,
                pages == page_count(size),
                virt_start + size <= u64::MAX,
                phys_start + size <= u64::MAX,
                memory@.wf(),
                memory@.is_root(self.spec_root()),
                range_outcome(
                    old(memory)@,
                    memory@,
                    self.spec_root(),
                    virt_start as int,
                    phys_start as int,
                    i as nat,
                    flags,
                    Ok::<(), MapError>(()),
                ),
            decreases pages - i,
        {
            let ghost mid = memory@;
            assert(i * 4096 < size);
            let result = self.map_page(
                memory,
                virt_start + i * PAGE_SIZE,
                phys_start + i * PAGE_SIZE,
                flags,
            );
            proof {
                assert(range_step(
                    mid,
                    memory@,
                    self.spec_root(),
                    page_at(virt_start as int, i as int),
                    page_at(phys_start as int, i as int) | flags,
                    Ok::<(), MapError>(()),
                    result,
                ));
                lemma_range_join(
                    old(memory)@,
                    mid,
                    memory@,
                    self.spec_root(),
                    virt_start as int,
                    phys_start as int,
                    i as nat,
                    flags,
                    Ok::<(), MapError>(()),
                    result,
                );
            }
            if result.is_err() {
                proof {
                    lemma_range_stops(
                        old(memory)@,
                        memory@,
                        self.spec_root(),
                        virt_start as int,
                        phys_start as int,
                        (i + 1) as nat,
                        pages as nat,
                        flags,
                        result,
                    );
                }
                return result;
            }
            i = i + 1;
        }
        Ok(())
    }

    /// Unmap a page and return the physical address that it was mapped to.
    pub fn unmap_page(&self, memory: &mut TableMemory, virt: u64) -> (result: Result<
        u64,
        MapError,
    >)
        requires
            old(memory)@.wf(),
            old(memory)@.is_root(self.spec_root()),
        ensures
            final(memory)@.wf(),
            final(memory)@.is_root(self.spec_root()),
            unmap_outcome(old(memory)@, final(memory)@, self.spec_root(), virt, result),
    {
        let indices = va_to_indices(virt);
        let ghost before = memory@;
        let ghost root = self.root;
        let mut table: u64 = self.root;
        let mut at: usize = 0;
        proof {
            lemma_way_facts(before, root, virt);
        }
        while at < 3
            invariant
                at <= 3,
                root == self.root,
                before == old(memory)@,
                memory@ == before,
                before.wf(),
                before.is_root(root),
                table_at(before.tables, root, virt, at as int) == Some(table),
                forall|l: int|
                    0 <= l < 4 ==> #[trigger] indices@[l] == index_at(virt, l) && indices@[l] < 512,
            decreases 3 - at,
        {
            proof {
                lemma_table_at_level(before, root, virt, at as int);
                lemma_way_facts(before, root, virt);
            }
            assert(indices@[at as int] == index_at(virt, at as int));
            let entry = memory.entry(table, indices[at]);
            proof {
                lemma_entry_kinds(entry.0);
            }
            if !(entry.is_valid() && entry.is_table()) {
                proof {
                    if before.depth(root, virt) > at {
                        lemma_table_at_above(
                            before.tables,
                            root,
                            virt,
                            before.depth(root, virt),
                            at + 1,
                        );
                    }
                }
                return Err(
                    if at == 0 {
                        MapError::L1TableNotPresent
                    } else if at == 1 {
                        MapError::L2TableNotPresent
                    } else {
                        MapError::L3TableNotPresent
                    },
                );
            }
            table = entry.addr();
            at = at + 1;
        }
        proof {
            lemma_table_at_level(before, root, virt, 3);
            lemma_entry_kinds(0);
        }
        assert(indices@[3] == index_at(virt, 3));
        let entry = memory.entry(table, indices[3]);
        if !entry.is_valid() {
            return Err(MapError::PageNotMapped);
        }
        memory.put(table, indices[3], PageTableEntry::empty());
        proof {
            lemma_put_entry_wf(before, table, index_at(virt, 3), 0);
            lemma_others_kept(before, memory@, root, virt, 3, index_at(virt, 3));
            assert forall|other: u64| #[trigger]
                memory@.lookup(root, other) == if same_entry(other, virt, 3) {
                    None
                } else {
                    before.lookup(root, other)
                } by {
                lemma_put_entry(before, root, virt, 3, 0, other);
            }
            assert forall|other: u64, l: int| 0 <= l <= 3 implies #[trigger] memory@.laid(
                root,
                other,
                l,
            ) == before.laid(root, other, l) by {
                lemma_put_entry_ways(before, root, virt, 3, 0, other, l);
            }
        }
        Ok(entry.addr())
    }

    /// The physical address and raw entry of an address.
    pub fn translate_full(&self, memory: &TableMemory, virt: u64) -> (result: Option<(u64, u64)>)
        requires
            memory@.wf(),
            memory@.is_root(self.spec_root()),
        ensures
            match result {
                Some((phys, raw)) => memory@.lookup(self.spec_root(), virt) == Some(
                    (phys as int, raw),
                ),
                None => memory@.lookup(self.spec_root(), virt) is None,
            },
    {
        let indices = va_to_indices(virt);
        let ghost m = memory@;
        let ghost root = self.root;
        let mut table: u64 = self.root;
        let mut at: usize = 0;
        while at < 3
            invariant
                at <= 3,
                root == self.root,
                m == memory@,
                m.wf(),
                m.is_root(root),
                table_at(m.tables, root, virt, at as int) == Some(table),
                forall|l: int|
                    0 <= l < 4 ==> #[trigger] indices@[l] == index_at(virt, l) && indices@[l] < 512,
            decreases 3 - at,
        {
            proof {
                lemma_table_at_level(m, root, virt, at as int);
                lemma_lookup_from_way(m.tables, root, virt, at as int);
            }
            assert(indices@[at as int] == index_at(virt, at as int));
            let entry = memory.entry(table, indices[at]);
            proof {
                lemma_entry_kinds(entry.0);
            }
            if !entry.is_valid() {
                return None;
            }
            if entry.is_block() {
                let size: u64 = if at == 0 {
                    L0_SPAN
                } else if at == 1 {
                    L1_BLOCK_SIZE
                } else {
                    L2_BLOCK_SIZE
                };
                return Some((entry.addr() + virt % size, entry.raw()));
            }
            table = entry.addr();
            at = at + 1;
        }
        proof {
            lemma_table_at_level(m, root, virt, 3);
            lemma_lookup_from_way(m.tables, root, virt, 3);
        }
        assert(indices@[3] == index_at(virt, 3));
        let entry = memory.entry(table, indices[3]);
        proof {
            lemma_entry_kinds(entry.0);
        }
        if entry.is_valid() {
            Some((entry.addr() + virt % PAGE_SIZE, entry.raw()))
        } else {
            None
        }
    }

    /// The physical address of an address.
    pub fn translate(&self, memory: &TableMemory, virt: u64) -> (result: Option<u64>)
        requires
            memory@.wf(),
            memory@.is_root(self.spec_root()),
        ensures
            match result {
                Some(phys) => match memory@.lookup(self.spec_root(), virt) {
                    Some((addr, raw)) => addr == phys,
                    None => false,
                },
                None => memory@.lookup(self.spec_root(), virt) is None,
            },
    {
        match self.translate_full(memory, virt) {
            Some((phys, _)) => Some(phys),
            None => None,
        }
    }
}

/// Law: an address is four digits of nine bits above a page's twelve: bits 39, 30, 21
/// and 12 up.
pub proof fn law_address_digits(va: u64)
    ensures
        index_at(va, 0) == va as int / 0x80_0000_0000 % 512,
        index_at(va, 1) == va as int / 0x4000_0000 % 512,
        index_at(va, 2) == va as int / 0x20_0000 % 512,
        index_at(va, 3) == va as int / 0x1000 % 512,
        va as int % 0x1_0000_0000_0000 == ((index_at(va, 0) * 512 + index_at(va, 1)) * 512
            + index_at(va, 2)) * 512 * 0x1000 + index_at(va, 3) * 0x1000 + va as int % 0x1000,
{
    let x = va as int;
    vstd::arithmetic::div_mod::lemma_div_denominator(x, 0x1000, 512);
    vstd::arithmetic::div_mod::lemma_div_denominator(x, 0x20_0000, 512);
    vstd::arithmetic::div_mod::lemma_div_denominator(x, 0x4000_0000, 512);
}

/// Law: the walk ends at the first entry that leads to no table. Where a page or a
/// block is valid there, the address is its frame plus the place inside a page, 2 MiB
/// or 1 GiB; anything else, and a block at the top, maps nothing.
pub proof fn law_walk_ends_at_an_entry(m: TablesModel, root: u64, va: u64)
    ensures
        ({
            let e0 = m.tables[root][index_at(va, 0)];
            let t1 = e0 & 0x0000_FFFF_FFFF_F000;
            let e1 = m.tables[t1][index_at(va, 1)];
            let t2 = e1 & 0x0000_FFFF_FFFF_F000;
            let e2 = m.tables[t2][index_at(va, 2)];
            let t3 = e2 & 0x0000_FFFF_FFFF_F000;
            let e3 = m.tables[t3][index_at(va, 3)];
            let found = m.lookup(root, va);
            &&& e0 & 0x1 == 0 ==> found is None
            &&& e0 & 0x3 == 3 && e1 & 0x1 == 0 ==> found is None
            &&& e0 & 0x3 == 3 && e1 & 0x3 == 1 ==> found == Some((t2 + va as int % 0x4000_0000, e1))
            &&& e0 & 0x3 == 3 && e1 & 0x3 == 3 && e2 & 0x1 == 0 ==> found is None
            &&& e0 & 0x3 == 3 && e1 & 0x3 == 3 && e2 & 0x3 == 1 ==> found == Some(
                (t3 + va as int % 0x20_0000, e2),
            )
            &&& e0 & 0x3 == 3 && e1 & 0x3 == 3 && e2 & 0x3 == 3 && e3 & 0x1 == 0 ==> found is None
            &&& e0 & 0x3 == 3 && e1 & 0x3 == 3 && e2 & 0x3 == 3 && e3 & 0x1 != 0 ==> found == Some(
                ((e3 & 0x0000_FFFF_FFFF_F000) + va as int % 0x1000, e3),
            )
        }),
{
    reveal_with_fuel(lookup_from, 5);
    let e0 = m.tables[root][index_at(va, 0)];
    let e1 = m.tables[entry_addr(e0)][index_at(va, 1)];
    let e2 = m.tables[entry_addr(e1)][index_at(va, 2)];
    lemma_entry_kinds(e0);
    lemma_entry_kinds(e1);
    lemma_entry_kinds(e2);
}

/// Law: a page that was mapped to a frame with some rights is found there: each of its
/// addresses at its own place in the frame, with exactly those rights. All other
/// addresses are found as before.
pub proof fn law_mapped_page_is_found(
    before: TablesModel,
    after: TablesModel,
    root: u64,
    virt: u64,
    frame: u64,
    flags: PageTableFlags,
    va: u64,
)
    requires
        map_outcome(
            before,
            after,
            root,
            virt,
            3,
            frame | pte_bits(flags),
            MapError::PageAlreadyMapped,
            Ok::<(), MapError>(()),
        ),
        frame_address(frame),
        flags.present,
        virt < 0x1_0000_0000_0000,
        va < 0x1_0000_0000_0000,
    ensures
        va as int / 4096 == virt as int / 4096 ==> match after.lookup(root, va) {
            Some((addr, entry)) => addr == frame + va as int % 4096 && flags_of(entry) == flags,
            None => false,
        },
        va as int / 4096 != virt as int / 4096 ==> after.lookup(root, va) == before.lookup(
            root,
            va,
        ),
        before.lookup(root, virt) is None,
{
    lemma_sharing(va, virt);
    lemma_rights_in_entry(frame, flags);
}

/// The flags put into an entry beside a frame address can be read back, and so can
/// the address.
pub(crate) proof fn lemma_rights_in_entry(frame: u64, flags: PageTableFlags)
    requires
        frame_address(frame),
        flags.present,
    ensures
        entry_valid(frame | pte_bits(flags)),
        entry_addr(frame | pte_bits(flags)) == frame,
        flags_of(frame | pte_bits(flags)) == flags,
{
    let bits = pte_bits(flags);
    let entry = frame | bits;
    law_flags_roundtrip(flags);
    lemma_hardware_bits(flags);
    assert({
        &&& entry & 0x0000_FFFF_FFFF_F000 == frame
        &&& entry & 0x1 == bits & 0x1
        &&& entry & 0x80 == bits & 0x80
        &&& entry & (0x40_0000_0000_0000u64 | 0x20_0000_0000_0000u64) == bits & (
        0x40_0000_0000_0000u64 | 0x20_0000_0000_0000u64)
        &&& entry & 0x40 == bits & 0x40
        &&& entry & 0x1C == bits & 0x1C
        &&& entry & 0x80_0000_0000_0000 == bits & 0x80_0000_0000_0000
    }) by (bit_vector)
        requires
            entry == frame | bits,
            frame % 0x1000 == 0,
            frame <= 0x0000_FFFF_FFFF_F000,
            bits & 0x0000_FFFF_FFFF_F000 == 0,
    ;
}

/// Law: no request to map ever changes an address that is mapped already: it is
/// refused with the error for a taken entry, or for a block in the way, and every
/// address translates as before. A request for an address that is not mapped, with no
/// table below, succeeds exactly if there is a frame for each table that is missing.
pub proof fn law_mapping_never_overwrites(
    before: TablesModel,
    after: TablesModel,
    root: u64,
    virt: u64,
    level: int,
    entry: u64,
    taken: MapError,
    result: Result<(), MapError>,
)
    requires
        map_outcome(before, after, root, virt, level, entry, taken, result),
        1 <= level <= 3,
        !(taken is OutOfMemory) && !(taken is EntryIsBlock),
    ensures
        before.lookup(root, virt) is Some ==> {
            &&& result is Err
            &&& result->Err_0 == taken || result->Err_0 == MapError::EntryIsBlock
            &&& after.translates_like(before, root)
        },
        result is Err ==> after.translates_like(before, root),
        before.lookup(root, virt) is None && before.depth(root, virt) <= level ==> {
            &&& result is Ok <==> before.free.len() + before.depth(root, virt) >= level
            &&& result is Err ==> result->Err_0 == MapError::OutOfMemory
            &&& result is Ok ==> before.free.len() - after.free.len() == level - before.depth(
                root,
                virt,
            )
        },
{
}

/// Law: an unmapped page is gone for all its addresses and for no others, and the
/// frame that it had is given back. A page that is not there is refused without any
/// change, with the level at which the way to it ends.
pub proof fn law_unmapped_page_is_gone(
    before: TablesModel,
    after: TablesModel,
    root: u64,
    virt: u64,
    result: Result<u64, MapError>,
    va: u64,
)
    requires
        unmap_outcome(before, after, root, virt, result),
        virt < 0x1_0000_0000_0000,
        va < 0x1_0000_0000_0000,
    ensures
        result is Ok ==> {
            &&& before.lookup(root, virt) is Some
            &&& (before.lookup(root, virt)->0).1 & 0x0000_FFFF_FFFF_F000 == result->Ok_0
            &&& va as int / 4096 == virt as int / 4096 ==> after.lookup(root, va) is None
            &&& va as int / 4096 != virt as int / 4096 ==> after.lookup(root, va) == before.lookup(
                root,
                va,
            )
        },
        result is Err ==> after == before,
        before.laid(root, virt, 3) && before.lookup(root, virt) is Some ==> result is Ok,
        before.laid(root, virt, 3) && before.lookup(root, virt) is None ==> result == Err::<
            u64,
            MapError,
        >(MapError::PageNotMapped),
        !before.laid(root, virt, 3) && before.laid(root, virt, 2) ==> result == Err::<
            u64,
            MapError,
        >(MapError::L3TableNotPresent),
        !before.laid(root, virt, 3) && !before.laid(root, virt, 2) && before.laid(root, virt, 1)
            ==> result == Err::<u64, MapError>(MapError::L2TableNotPresent),
        !before.laid(root, virt, 3) && !before.laid(root, virt, 2) && !before.laid(root, virt, 1)
            ==> result == Err::<u64, MapError>(MapError::L1TableNotPresent),
{
    lemma_sharing(va, virt);
}

} // verus!
