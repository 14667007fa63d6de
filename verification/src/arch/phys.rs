//! The regions that the allocator of physical memory starts from.

use vstd::prelude::*;

use crate::arch::dtb::DeviceTreeInfo;

verus! {

/// A region of physical memory.
#[derive(Debug, Clone, Copy, PartialEq, Eq, Structural)]
pub struct PhysRegion {
    pub base: u64,
    pub length: u64,
}

/// The regions of memory, as the device tree has them.
pub fn boot_regions(info: &DeviceTreeInfo) -> (regions: Vec<PhysRegion>)
    requires
        info.wf(),
    ensures
        regions@ == Seq::new(
            info.regions().len(),
            |i: int|
                PhysRegion {
                    base: info.regions()[i].base as u64,
                    length: info.regions()[i].size as u64,
                },
        ),
{
    let found = info.memory_regions();
    let mut regions: Vec<PhysRegion> = Vec::new();
    let mut i: usize = 0;
    while i < found.len()
        invariant
            i <= found@.len(),
            found@ == info.regions(),
            regions@.len() == i,
            forall|k: int|
                0 <= k < i ==> #[trigger] regions@[k] == (PhysRegion {
                    base: found@[k].base as u64,
                    length: found@[k].size as u64,
                }),
        decreases found@.len() - i,
    {
        regions.push(PhysRegion { base: found[i].base as u64, length: found[i].size as u64 });
        i = i + 1;
    }
    assert(regions@ =~= Seq::new(
        info.regions().len(),
        |i: int|
            PhysRegion {
                base: info.regions()[i].base as u64,
                length: info.regions()[i].size as u64,
            },
    ));
    regions
}

/// All memory, in bytes.
pub fn total_memory(info: &DeviceTreeInfo) -> (total: usize)
    ensures
        total == info.total_memory,
{
    info.total_memory
}

/// The regions that are in use already: the device tree and the kernel.
pub fn reserved_regions(info: &DeviceTreeInfo, kernel_start: u64, kernel_end: u64) -> (regions: (
    PhysRegion,
    PhysRegion,
))
    requires
        kernel_start <= kernel_end,
    ensures
        regions.0 == (PhysRegion { base: info.dtb_start as u64, length: info.dtb_size as u64 }),
        regions.1 == (PhysRegion {
            base: kernel_start,
            length: (kernel_end - kernel_start) as u64,
        }),
{
    (
        PhysRegion { base: info.dtb_start as u64, length: info.dtb_size as u64 },
        PhysRegion { base: kernel_start, length: kernel_end - kernel_start },
    )
}

} // verus!
