//! Mapping the tables of the firmware.

use vstd::prelude::*;

use crate::arch::paging::{
    last_page, law_range_is_mapped, law_range_keeps_others, lemma_kept_twice, lemma_kept_unchanged, lemma_lookup_by_page,
    lemma_way_facts, mapped_by, page_at, page_count, pte_bits, range_outcome, same_entry, MapError,
    PageTableFlags, PageTableWalker, TableMemory, TablesModel,
};
use crate::vmem::addr::VirtAddr;
use crate::vmem::segment::Segment;

verus! {

pub const PAGE_SIZE: usize = 4096;

/// Whole pages around a range of physical memory.
#[derive(Debug, Clone, Copy, PartialEq, Eq, Structural)]
pub struct MappingPlan {
    pub physical_base: usize,
    /// Where the range starts in the first page.
    pub offset: usize,
    pub page_count: usize,
    pub mapped_len: usize,
}

/// What is asked for: at least the size of the type.
pub open spec fn required_len(requested_len: usize, type_len: usize) -> int {
    if requested_len >= type_len {
        requested_len as int
    } else {
        type_len as int
    }
}

/// Pages that the range takes.
pub open spec fn pages_needed(physical_address: usize, required: int) -> int {
    (physical_address as int % 4096 + required + 4095) / 4096
}

/// The pages around the range lie within the address space.
pub open spec fn mappable(physical_address: usize, required: int) -> bool {
    let offset = physical_address as int % 4096;
    &&& required > 0
    &&& offset + required + 4095 <= usize::MAX
    &&& physical_address - offset + pages_needed(physical_address, required) * 4096 <= usize::MAX
}

/// Plan the mapping of a range. Refused if it is empty or does not fit.
pub fn plan_mapping(physical_address: usize, requested_len: usize, type_len: usize) -> (plan:
    Option<MappingPlan>)
    ensures
        ({
            let required = required_len(requested_len, type_len);
            let pages = pages_needed(physical_address, required);
            let offset = physical_address as int % 4096;
            plan == if mappable(physical_address, required) {
                Some(
                    MappingPlan {
                        physical_base: (physical_address - offset) as usize,
                        offset: offset as usize,
                        page_count: pages as usize,
                        mapped_len: (pages * 4096) as usize,
                    },
                )
            } else {
                None
            }
        }),
{
    let required: usize = if requested_len >= type_len {
        requested_len
    } else {
        type_len
    };
    if required == 0 {
        return None;
    }
    let offset: usize = physical_address % PAGE_SIZE;
    let covered: usize = match offset.checked_add(required) {
        Some(covered) => covered,
        None => {
            return None;
        },
    };
    let page_count: usize = match covered.checked_add(PAGE_SIZE - 1) {
        Some(rounded) => rounded / PAGE_SIZE,
        None => {
            return None;
        },
    };
    let mapped_len: usize = page_count * PAGE_SIZE;
    let physical_base: usize = physical_address - offset;
    if physical_base.checked_add(mapped_len).is_none() {
        return None;
    }
    Some(MappingPlan { physical_base, offset, page_count, mapped_len })
}

/// Law: a plan covers the range that was asked for, with whole pages, and no page
/// of it can be spared.
pub proof fn law_plan_covers_range(physical_address: usize, required: int)
    requires
        mappable(physical_address, required),
    ensures
        ({
            let offset = physical_address as int % 4096;
            let base = physical_address - offset;
            let pages = pages_needed(physical_address, required);
            &&& base % 4096 == 0
            &&& base <= physical_address
            &&& physical_address + required <= base + pages * 4096
            &&& base + (pages - 1) * 4096 < physical_address + required
        }),
{
}

impl MappingPlan {
    /// The plan's pages lie within the address space.
    pub open spec fn wf(self) -> bool {
        &&& self.mapped_len == self.page_count * 4096
        &&& self.physical_base + self.mapped_len <= usize::MAX
        &&& self.offset < 4096
    }

    /// The frames to map, in order.
    pub fn frames(&self) -> (frames: Vec<usize>)
        requires
            self.wf(),
        ensures
            frames@ == Seq::new(
                self.page_count as nat,
                |i: int| (self.physical_base + i * 4096) as usize,
            ),
    {
        let mut frames: Vec<usize> = Vec::new();
        let mut i: usize = 0;
        while i < self.page_count
            invariant
                self.wf(),
                i <= self.page_count,
                frames@.len() == i,
                forall|k: int|
                    0 <= k < i ==> #[trigger] frames@[k] == (self.physical_base + k * 4096) as usize,
            decreases self.page_count - i,
        {
            assert(i * 4096 <= self.mapped_len);
            frames.push(self.physical_base + i * PAGE_SIZE);
            i = i + 1;
        }
        assert(frames@ =~= Seq::new(
            self.page_count as nat,
            |i: int| (self.physical_base + i * 4096) as usize,
        ));
        frames
    }
}

/// Where the range is seen: as far into the reserved segment as it lies in its
/// first page.
pub open spec fn seen_at(segment: Segment, plan: MappingPlan) -> int {
    segment.start.0 + plan.offset
}

/// Where the range is seen.
pub fn virtual_start(segment: Segment, plan: MappingPlan) -> (start: VirtAddr)
    requires
        seen_at(segment, plan) <= u64::MAX,
    ensures
        start.0 == seen_at(segment, plan),
{
    VirtAddr::new(segment.start.0 + plan.offset as u64)
}

/// The segment that a mapping seen at `start` was given.
pub fn mapped_segment(start: VirtAddr, mapped_len: u64) -> (segment: Segment)
    ensures
        segment.start.0 == start.0 - start.0 % 4096,
        segment.len == mapped_len,
{
    Segment::new(VirtAddr::new(start.0 - start.0 % 4096), mapped_len)
}

/// Law: unmapping releases the segment that mapping reserved.
pub proof fn law_unmap_releases_reservation(segment: Segment, plan: MappingPlan, start: VirtAddr)
    requires
        plan.wf(),
        segment.start.0 % 4096 == 0,
        segment.len == plan.mapped_len,
        seen_at(segment, plan) <= u64::MAX,
        start.0 == seen_at(segment, plan),
    ensures
        start.0 - start.0 % 4096 == segment.start.0,
{
}

/// The pages of a range are unmapped, and nothing else changes.
pub open spec fn cleared(
    before: TablesModel,
    after: TablesModel,
    root: u64,
    start: int,
    n: nat,
) -> bool {
    &&& after.free == before.free
    &&& after.keeps_others(before, root)
    &&& forall|va: u64, l: int|
        0 <= l <= 3 ==> #[trigger] after.laid(root, va, l) == before.laid(root, va, l)
    &&& forall|va: u64| #[trigger]
        after.lookup(root, va) == if last_page(va, start, n) is Some && before.laid(root, va, 3) {
            None
        } else {
            before.lookup(root, va)
        }
}

/// Unmap the pages of a range.
fn clear_pages(walker: &PageTableWalker, memory: &mut TableMemory, start: u64, pages: u64)
    requires
        old(memory)@.wf(),
        old(memory)@.is_root(walker.spec_root()),
        start + pages * 4096 <= u64::MAX,
    ensures
        final(memory)@.wf(),
        final(memory)@.is_root(walker.spec_root()),
        cleared(old(memory)@, final(memory)@, walker.spec_root(), start as int, pages as nat),
{
    let ghost before = memory@;
    let ghost root = walker.spec_root();
    proof {
        lemma_kept_unchanged(before, root);
    }
    let mut i: u64 = 0;
    while i < pages
        invariant
            i <= pages,
            start + pages * 4096 <= u64::MAX,
            root == walker.spec_root(),
            before.wf(),
            before.is_root(root),
            memory@.wf(),
            memory@.is_root(root),
            cleared(before, memory@, root, start as int, i as nat),
        decreases pages - i,
    {
        let ghost here = memory@;
        let page: u64 = start + i * 4096;
        let _result = walker.unmap_page(memory, page);
        proof {
            assert(page == page_at(start as int, i as int));
            lemma_clear_step(before, here, memory@, root, start as int, i as nat, _result);
        }
        i = i + 1;
    }
}

/// One page more.
proof fn lemma_clear_step(
    before: TablesModel,
    here: TablesModel,
    after: TablesModel,
    root: u64,
    start: int,
    n: nat,
    result: Result<u64, MapError>,
)
    requires
        before.wf(),
        before.is_root(root),
        here.wf(),
        here.is_root(root),
        after.wf(),
        after.is_root(root),
        cleared(before, here, root, start, n),
        crate::arch::paging::unmap_outcome(here, after, root, page_at(start, n as int), result),
    ensures
        cleared(before, after, root, start, n + 1),
{
    let page = page_at(start, n as int);
    lemma_way_facts(here, root, page);
    lemma_kept_unchanged(here, root);
    lemma_kept_twice(before, here, after, root);
    assert((n + 1 - 1) as nat == n);
    assert forall|va: u64| #[trigger] after.lookup(root, va) == if last_page(va, start, n + 1) is Some
        && before.laid(root, va, 3) {
        None
    } else {
        before.lookup(root, va)
    } by {
        assert(here.lookup(root, va) == if last_page(va, start, n) is Some && before.laid(
            root,
            va,
            3,
        ) {
            None
        } else {
            before.lookup(root, va)
        });
        assert(here.laid(root, va, 3) == before.laid(root, va, 3));
        if same_entry(va, page, 3) {
            assert(last_page(va, start, n + 1) is Some);
            lemma_lookup_by_page(here, root, va, page);
            lemma_way_facts(here, root, va);
        } else {
            assert(last_page(va, start, n + 1) == last_page(va, start, n));
        }
    }
    assert forall|va: u64, l: int| 0 <= l <= 3 implies #[trigger] after.laid(root, va, l)
        == before.laid(root, va, l) by {
        assert(here.laid(root, va, l) == before.laid(root, va, l));
    }
}

/// Flags of a mapping of firmware tables: never to be executed.
pub open spec fn table_flags() -> u64 {
    pte_bits(
        PageTableFlags {
            present: true,
            writable: true,
            no_execute: true,
            user_accessible: false,
            mmio_device: false,
            copy_on_write: false,
        },
    )
}

/// Map the pages of a plan at a reserved segment. What the boot loader may have
/// left there is unmapped first.
pub fn map_physical_region(
    walker: &PageTableWalker,
    memory: &mut TableMemory,
    segment: Segment,
    plan: MappingPlan,
) -> (result: Result<VirtAddr, MapError>)
    requires
        old(memory)@.wf(),
        old(memory)@.is_root(walker.spec_root()),
        plan.wf(),
        segment.len == plan.mapped_len,
        plan.mapped_len > 0,
        segment.start.0 + segment.len <= u64::MAX,
        plan.physical_base + plan.mapped_len <= u64::MAX,
    ensures
        final(memory)@.wf(),
        final(memory)@.is_root(walker.spec_root()),
        final(memory)@.keeps_others(old(memory)@, walker.spec_root()),
        ({
            let root = walker.spec_root();
            let start = segment.start.0 as int;
            let pages = plan.page_count as nat;
            &&& exists|mid: TablesModel, mapped: Result<(), MapError>|
                {
                    &&& #[trigger] cleared(old(memory)@, mid, root, start, pages)
                    &&& #[trigger] range_outcome(
                        mid,
                        final(memory)@,
                        root,
                        start,
                        plan.physical_base as int,
                        pages,
                        table_flags(),
                        mapped,
                    )
                    &&& result == match mapped {
                        Ok(_) => Ok::<VirtAddr, MapError>(
                            VirtAddr(seen_at(segment, plan) as u64),
                        ),
                        Err(error) => Err::<VirtAddr, MapError>(error),
                    }
                }
            &&& result is Ok ==> forall|va: u64| #[trigger]
                final(memory)@.lookup(root, va) == match last_page(va, start, pages) {
                    Some(i) => mapped_by(
                        page_at(plan.physical_base as int, i) | table_flags(),
                        3,
                        va,
                    ),
                    None => old(memory)@.lookup(root, va),
                }
        }),
{
    let ghost before = memory@;
    let ghost root = walker.spec_root();
    let ghost start = segment.start.0 as int;
    let ghost pages = plan.page_count as nat;
    clear_pages(walker, memory, segment.start.0, plan.page_count as u64);
    let ghost mid = memory@;
    let mut flags = PageTableFlags::empty();
    flags.present = true;
    flags.writable = true;
    flags.no_execute = true;
    let mapped = walker.map_range(
        memory,
        segment.start.0,
        plan.physical_base as u64,
        segment.len,
        flags.to_pte_bits(),
    );
    proof {
        assert(page_count(segment.len) == pages);
        assert(cleared(before, mid, root, start, pages));
        assert(range_outcome(
            mid,
            memory@,
            root,
            start,
            plan.physical_base as int,
            pages,
            table_flags(),
            mapped,
        ));
        law_range_keeps_others(
            mid,
            memory@,
            root,
            start,
            plan.physical_base as int,
            pages,
            table_flags(),
            mapped,
        );
        lemma_kept_twice(before, mid, memory@, root);
        if mapped is Ok {
            law_range_is_mapped(
                mid,
                memory@,
                root,
                start,
                plan.physical_base as int,
                pages,
                table_flags(),
            );
            assert forall|va: u64| #[trigger] memory@.lookup(root, va) == match last_page(
                va,
                start,
                pages,
            ) {
                Some(i) => mapped_by(page_at(plan.physical_base as int, i) | table_flags(), 3, va),
                None => before.lookup(root, va),
            } by {
                assert(mid.lookup(root, va) == if last_page(va, start, pages) is Some
                    && before.laid(root, va, 3) {
                    None
                } else {
                    before.lookup(root, va)
                });
            }
        }
    }
    match mapped {
        Ok(()) => Ok(virtual_start(segment, plan)),
        Err(error) => Err(error),
    }
}

/// Unmap a mapping that is seen at `start`: the segment to give back. The frames
/// stay with the firmware.
pub fn unmap_physical_region(
    walker: &PageTableWalker,
    memory: &mut TableMemory,
    start: VirtAddr,
    mapped_len: u64,
) -> (segment: Segment)
    requires
        old(memory)@.wf(),
        old(memory)@.is_root(walker.spec_root()),
        mapped_len % 4096 == 0,
        start.0 + mapped_len <= u64::MAX,
    ensures
        final(memory)@.wf(),
        final(memory)@.is_root(walker.spec_root()),
        segment.start.0 == start.0 - start.0 % 4096,
        segment.len == mapped_len,
        cleared(
            old(memory)@,
            final(memory)@,
            walker.spec_root(),
            segment.start.0 as int,
            (mapped_len as int / 4096) as nat,
        ),
{
    let segment = mapped_segment(start, mapped_len);
    clear_pages(walker, memory, segment.start.0, mapped_len / 4096);
    segment
}

/// Law: a range is planned with at least the size of its type, and only if that is not zero.
pub proof fn law_plan_length(requested: usize, type_len: usize, at: usize)
    ensures
        required_len(requested, type_len) >= requested,
        required_len(requested, type_len) >= type_len,
        required_len(requested, type_len) == requested || required_len(requested, type_len)
            == type_len,
        !mappable(at, 0),
{
}

/// Law: firmware tables are memory of the kernel: writable, never executed, and out of reach
/// of user programs.
pub proof fn law_table_rights()
    ensures
        table_flags() & 0x1 != 0,
        table_flags() & 0x40 == 0,
        table_flags() & 0x80 == 0,
        table_flags() & 0x20_0000_0000_0000 != 0,
        table_flags() & 0x40_0000_0000_0000 != 0,
        table_flags() & 0x1C == 0x8,
        table_flags() & 0x80_0000_0000_0000 == 0,
{
    let flags = PageTableFlags {
        present: true,
        writable: true,
        no_execute: true,
        user_accessible: false,
        mmio_device: false,
        copy_on_write: false,
    };
    crate::arch::paging::law_user_bit(flags);
    crate::arch::paging::law_execute_never_bits(flags);
    crate::arch::paging::law_read_only_bit(flags);
    crate::arch::paging::law_copy_on_write_bit(flags);
    crate::arch::paging::law_present_bits(flags);
    crate::arch::paging::law_memory_attribute(flags);
}

/// Law: a mapping is seen as far behind the start of its segment as the range lies in its
/// first page.
pub proof fn law_range_is_seen_in_place(segment: Segment, plan: MappingPlan)
    requires
        plan.wf(),
        segment.start.0 % 4096 == 0,
    ensures
        seen_at(segment, plan) - segment.start.0 == plan.offset,
        seen_at(segment, plan) % 4096 == plan.offset,
{
}

} // verus!
