//! What the boot loader hands over.

use vstd::prelude::*;

verus! {

/// Where the device tree is.
#[derive(Debug, Clone, Copy, PartialEq, Eq, Structural)]
pub struct BootInfo {
    pub dtb_addr: usize,
}

impl BootInfo {
    pub fn new(dtb_addr: usize) -> (info: Self)
        ensures
            info.dtb_addr == dtb_addr,
    {
        BootInfo { dtb_addr }
    }
}

} // verus!
