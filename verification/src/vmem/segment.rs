//! Ranges of virtual memory.

use vstd::prelude::*;

use crate::vmem::addr::VirtAddr;

verus! {

/// The `len` addresses from `start` on.
#[derive(Debug, Copy, Clone, PartialEq, Eq, PartialOrd, Ord, Structural)]
pub struct Segment {
    pub start: VirtAddr,
    pub len: u64,
}

impl Segment {
    /// One past the last address.
    pub open spec fn end(self) -> int {
        self.start.0 + self.len
    }

    pub open spec fn holds(self, addr: int) -> bool {
        self.start.0 <= addr < self.end()
    }

    /// Not empty, and within the address space.
    pub open spec fn valid(self) -> bool {
        self.len > 0 && self.end() <= u64::MAX + 1
    }

    /// Some address lies in both.
    pub open spec fn overlaps(self, other: Segment) -> bool {
        self.start.0 < other.end() && other.start.0 < self.end()
    }

    #[must_use]
    pub fn new(start: VirtAddr, len: u64) -> (segment: Self)
        ensures
            segment == (Segment { start, len }),
    {
        Segment { start, len }
    }

    /// The start is inside, the end is not.
    #[must_use]
    pub fn contains(&self, addr: VirtAddr) -> (inside: bool)
        ensures
            inside == self.holds(addr.0 as int),
    {
        self.start.0 <= addr.0 && addr.0 - self.start.0 < self.len
    }
}

/// Law: two non-empty segments overlap exactly if they share an address.
pub proof fn law_overlap_means_shared_address(a: Segment, b: Segment)
    requires
        a.len > 0,
        b.len > 0,
    ensures
        a.overlaps(b) <==> exists|x: int| a.holds(x) && b.holds(x),
        a.overlaps(b) == b.overlaps(a),
{
    if a.overlaps(b) {
        let x = if a.start.0 < b.start.0 {
            b.start.0 as int
        } else {
            a.start.0 as int
        };
        assert(a.holds(x) && b.holds(x));
    }
}

/// Law: a segment holds exactly the addresses from its start on, as many as its length.
pub proof fn law_segment_holds(segment: Segment, addr: int)
    ensures
        segment.holds(addr) <==> segment.start.0 <= addr && addr < segment.start.0 + segment.len,
        segment.valid() <==> segment.len > 0 && segment.start.0 + segment.len
            <= 0x1_0000_0000_0000_0000,
{
}

} // verus!
