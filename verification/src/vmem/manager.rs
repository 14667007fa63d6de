//! Reservation of address ranges.

use vstd::prelude::*;

use crate::vmem::addr::VirtAddr;
use crate::vmem::segment::Segment;

verus! {

/// The segment overlaps one that is reserved.
#[derive(Debug, Copy, Clone, PartialEq, Eq, Structural)]
pub struct AlreadyReserved;

/// Hands out segments of a managed range. The view is the set of reserved
/// segments.
#[derive(PartialEq, Eq)]
pub struct VirtualMemoryManager {
    mem_start: VirtAddr,
    mem_size: u64,
    segments: Vec<Segment>,
}

/// `segment` overlaps none of the reserved ones.
pub open spec fn is_free(reserved: Set<Segment>, segment: Segment) -> bool {
    forall|other: Segment| #[trigger] reserved.contains(other) ==> !segment.overlaps(other)
}

/// No two of the segments overlap.
pub open spec fn pairwise_disjoint(reserved: Set<Segment>) -> bool {
    forall|a: Segment, b: Segment|
        #![trigger reserved.contains(a), reserved.contains(b)]
        reserved.contains(a) && reserved.contains(b) && a != b ==> !a.overlaps(b)
}

/// `len` addresses from `start` on exist, lie in the managed range and are free.
pub open spec fn fits(range: Segment, reserved: Set<Segment>, start: u64, len: u64) -> bool {
    &&& range.start.0 <= start
    &&& start + len <= range.end()
    &&& start + len <= u64::MAX + 1
    &&& is_free(reserved, Segment { start: VirtAddr(start), len })
}

/// `start` is the lowest place where `len` addresses fit.
pub open spec fn first_fit(range: Segment, reserved: Set<Segment>, start: u64, len: u64) -> bool {
    &&& fits(range, reserved, start, len)
    &&& forall|lower: u64| #[trigger] fits(range, reserved, lower, len) ==> start <= lower
}

/// In ascending order, each one ending before the next begins.
pub open spec fn ascending(segments: Seq<Segment>) -> bool {
    forall|i: int, j: int|
        #![trigger segments[i], segments[j]]
        0 <= i < j < segments.len() ==> segments[i].end() <= segments[j].start.0
}

/// Law: releasing a segment that was just reserved leaves the reservations as they
/// were before.
pub proof fn law_release_undoes_reserve(reserved: Set<Segment>, segment: Segment)
    requires
        segment.valid(),
        is_free(reserved, segment),
    ensures
        reserved.insert(segment).remove(segment) == reserved,
{
    assert(segment.overlaps(segment));
    assert(!reserved.contains(segment));
    assert(reserved.insert(segment).remove(segment) =~= reserved);
}

impl View for VirtualMemoryManager {
    type V = Set<Segment>;

    closed spec fn view(&self) -> Set<Segment> {
        self.segments@.to_set()
    }
}

impl VirtualMemoryManager {
    /// The managed range.
    pub closed spec fn range(&self) -> Segment {
        Segment { start: self.mem_start, len: self.mem_size }
    }

    pub closed spec fn wf(&self) -> bool {
        &&& ascending(self.segments@)
        &&& forall|i: int| 0 <= i < self.segments@.len() ==> (#[trigger] self.segments@[i]).valid()
    }

    /// Law: reserved segments are valid and never overlap.
    pub proof fn law_reservations_are_disjoint(&self)
        requires
            self.wf(),
        ensures
            pairwise_disjoint(self@),
            forall|segment: Segment| #[trigger] self@.contains(segment) ==> segment.valid(),
    {
        let s = self.segments@;
        assert forall|a: Segment, b: Segment|
            #![trigger self@.contains(a), self@.contains(b)]
            self@.contains(a) && self@.contains(b) && a != b implies !a.overlaps(b) by {
            let i = choose|i: int| 0 <= i < s.len() && s[i] == a;
            let j = choose|j: int| 0 <= j < s.len() && s[j] == b;
            if i < j {
                assert(s[i].end() <= s[j].start.0);
            } else {
                assert(s[j].end() <= s[i].start.0);
            }
        }
    }

    /// A manager of `mem_size` addresses from `mem_start` on, nothing reserved.
    #[must_use]
    pub fn new(mem_start: VirtAddr, mem_size: u64) -> (manager: Self)
        ensures
            manager.wf(),
            manager@ == Set::<Segment>::empty(),
            manager.range() == (Segment { start: mem_start, len: mem_size }),
    {
        let manager = VirtualMemoryManager { mem_start, mem_size, segments: Vec::new() };
        assert(manager@ =~= Set::<Segment>::empty());
        manager
    }

    /// Reserve the lowest `n` free addresses in a row. `None`, with nothing
    /// reserved, for zero and where there is no room.
    pub fn reserve(&mut self, n: usize) -> (result: Option<Segment>)
        requires
            old(self).wf(),
        ensures
            final(self).wf(),
            final(self).range() == old(self).range(),
            match result {
                Some(segment) => {
                    &&& segment.len == n
                    &&& n > 0
                    &&& first_fit(old(self).range(), old(self)@, segment.start.0, n as u64)
                    &&& final(self)@ == old(self)@.insert(segment)
                },
                None => {
                    &&& n == 0 || forall|start: u64|
                        !#[trigger] fits(old(self).range(), old(self)@, start, n as u64)
                    &&& final(self)@ == old(self)@
                },
            },
    {
        if n == 0 {
            return None;
        }
        let len: u64 = n as u64;
        let ghost range = self.range();
        let ghost reserved = self@;
        let mut start: u64 = self.mem_start.0;
        loop
            invariant
                *self == *old(self),
                self.wf(),
                reserved == self@,
                range == self.range(),
                len == n,
                len > 0,
                range.start.0 <= start,
                forall|lower: u64| #[trigger] fits(range, reserved, lower, len) ==> start <= lower,
            decreases u64::MAX - start,
        {
            if start > u64::MAX - (len - 1) {
                return None;
            }
            let candidate = Segment { start: VirtAddr(start), len };
            match self.find_overlapping(&candidate) {
                Some(index) => {
                    let existing = self.segments[index];
                    proof {
                        assert(reserved.contains(existing));
                        assert forall|lower: u64| #[trigger]
                            fits(range, reserved, lower, len) implies existing.end() <= lower by {
                            let there = Segment { start: VirtAddr(lower), len };
                            assert(!there.overlaps(existing));
                        }
                    }
                    if existing.start.0 > u64::MAX - existing.len {
                        return None;
                    }
                    start = existing.start.0 + existing.len;
                },
                None => {
                    let offset: u64 = start - self.mem_start.0;
                    if offset > self.mem_size || len > self.mem_size - offset {
                        return None;
                    }
                    assert(fits(range, reserved, start, len));
                    self.insert(candidate);
                    return Some(candidate);
                },
            }
        }
    }

    /// Give a segment back; `false` if exactly this one is not reserved.
    pub fn release(&mut self, segment: Segment) -> (released: bool)
        requires
            old(self).wf(),
        ensures
            final(self).wf(),
            final(self).range() == old(self).range(),
            released == old(self)@.contains(segment),
            final(self)@ == old(self)@.remove(segment),
    {
        let ghost before = self.segments@;
        let mut i: usize = 0;
        while i < self.segments.len()
            invariant
                *self == *old(self),
                self.wf(),
                before == self.segments@,
                i <= before.len(),
                forall|k: int| 0 <= k < i ==> #[trigger] before[k] != segment,
            decreases before.len() - i,
        {
            if self.segments[i] == segment {
                let removed = self.segments.remove(i);
                proof {
                    let after = self.segments@;
                    assert(removed.valid());
                    assert forall|other: Segment|
                        after.contains(other) == before.to_set().remove(segment).contains(
                            other,
                        ) by {
                        if after.contains(other) {
                            let k = choose|k: int| 0 <= k < after.len() && after[k] == other;
                            let at = if k < i {
                                k
                            } else {
                                k + 1
                            };
                            assert(before[at] == other);
                            if at < i {
                                assert(before[at].end() <= before[i as int].start.0);
                            } else {
                                assert(before[i as int].end() <= before[at].start.0);
                            }
                        }
                        if before.to_set().remove(segment).contains(other) {
                            let k = choose|k: int| 0 <= k < before.len() && before[k] == other;
                            let at = if k < i {
                                k
                            } else {
                                k - 1
                            };
                            assert(after[at] == other);
                        }
                    }
                    assert(after.to_set() =~= before.to_set().remove(segment));
                }
                return true;
            }
            i = i + 1;
        }
        assert(before.to_set() =~= before.to_set().remove(segment));
        false
    }

    /// Reserve a given segment, wherever it lies, unless it overlaps a reserved
    /// one.
    pub fn mark_as_reserved(&mut self, segment: Segment) -> (result: Result<(), AlreadyReserved>)
        requires
            old(self).wf(),
            segment.valid(),
        ensures
            final(self).wf(),
            final(self).range() == old(self).range(),
            is_free(old(self)@, segment) ==> {
                &&& result == Ok::<(), AlreadyReserved>(())
                &&& final(self)@ == old(self)@.insert(segment)
            },
            !is_free(old(self)@, segment) ==> {
                &&& result == Err::<(), AlreadyReserved>(AlreadyReserved)
                &&& final(self)@ == old(self)@
            },
    {
        match self.find_overlapping(&segment) {
            Some(index) => {
                assert(self@.contains(self.segments@[index as int]));
                Err(AlreadyReserved)
            },
            None => {
                self.insert(segment);
                Ok(())
            },
        }
    }

    /// The reserved segments in ascending order.
    pub fn segments(&self) -> (segments: &[Segment])
        requires
            self.wf(),
        ensures
            ascending(segments@),
            segments@.to_set() == self@,
    {
        self.segments.as_slice()
    }

    /// The index of a reserved segment that overlaps `segment`.
    fn find_overlapping(&self, segment: &Segment) -> (index: Option<usize>)
        requires
            self.wf(),
            segment.valid(),
        ensures
            match index {
                Some(index) => index < self.segments@.len() && segment.overlaps(
                    self.segments@[index as int],
                ),
                None => is_free(self@, *segment),
            },
    {
        let mut i: usize = 0;
        while i < self.segments.len()
            invariant
                self.wf(),
                segment.valid(),
                i <= self.segments@.len(),
                forall|k: int| 0 <= k < i ==> !segment.overlaps(#[trigger] self.segments@[k]),
            decreases self.segments@.len() - i,
        {
            let existing = self.segments[i];
            if segment.start.0 <= existing.start.0 + (existing.len - 1) && existing.start.0
                <= segment.start.0 + (segment.len - 1) {
                return Some(i);
            }
            i = i + 1;
        }
        None
    }

    /// Insert a free segment at its place.
    fn insert(&mut self, segment: Segment)
        requires
            old(self).wf(),
            segment.valid(),
            is_free(old(self)@, segment),
        ensures
            final(self).wf(),
            final(self).range() == old(self).range(),
            final(self)@ == old(self)@.insert(segment),
    {
        let ghost before = self.segments@;
        let mut i: usize = 0;
        while i < self.segments.len() && self.segments[i].start.0 < segment.start.0
            invariant
                *self == *old(self),
                before == self.segments@,
                i <= before.len(),
                forall|k: int| 0 <= k < i ==> (#[trigger] before[k]).start.0 < segment.start.0,
            decreases before.len() - i,
        {
            i = i + 1;
        }
        self.segments.insert(i, segment);
        proof {
            let after = self.segments@;
            assert(after =~= before.insert(i as int, segment));
            assert forall|k: int| 0 <= k < before.len() implies !segment.overlaps(
                #[trigger] before[k],
            ) && before[k].valid() by {
                assert(old(self)@.contains(before[k]));
            }
            assert forall|a: int, b: int|
                #![trigger after[a], after[b]]
                0 <= a < b < after.len() implies after[a].end() <= after[b].start.0 by {
                if a == i {
                    assert(after[b] == before[b - 1]);
                    assert(before[i as int].start.0 >= segment.start.0);
                    if b - 1 > i {
                        assert(before[i as int].end() <= before[b - 1].start.0);
                    }
                } else if b == i {
                    assert(after[a] == before[a]);
                    assert(before[a].start.0 < segment.start.0);
                } else {
                    let x = if a < i {
                        a
                    } else {
                        a - 1
                    };
                    let y = if b < i {
                        b
                    } else {
                        b - 1
                    };
                    assert(before[x].end() <= before[y].start.0);
                }
            }
            assert forall|k: int| 0 <= k < after.len() implies (#[trigger] after[k]).valid() by {
                if k != i {
                    let x = if k < i {
                        k
                    } else {
                        k - 1
                    };
                    assert(before[x].valid());
                }
            }
            assert forall|other: Segment|
                after.contains(other) == before.to_set().insert(segment).contains(other) by {
                if before.contains(other) {
                    let k = choose|k: int| 0 <= k < before.len() && before[k] == other;
                    let at = if k < i {
                        k
                    } else {
                        k + 1
                    };
                    assert(after[at] == other);
                }
                if after.contains(other) {
                    let k = choose|k: int| 0 <= k < after.len() && after[k] == other;
                    if k < i {
                        assert(before[k] == other);
                    } else if k > i {
                        assert(before[k - 1] == other);
                    }
                }
                assert(after[i as int] == segment);
            }
            assert(after.to_set() =~= before.to_set().insert(segment));
        }
    }
}

/// Law: what fits lies inside the managed range and shares no address with a reservation;
/// the first fit is the lowest such place.
pub proof fn law_fit_is_free_and_lowest(
    range: Segment,
    reserved: Set<Segment>,
    start: u64,
    len: u64,
    other: Segment,
    at: int,
)
    requires
        first_fit(range, reserved, start, len),
        reserved.contains(other),
        start <= at < start + len,
    ensures
        range.start.0 <= at < range.start.0 + range.len,
        !(other.start.0 <= at < other.start.0 + other.len),
        forall|lower: u64|
            lower < start && #[trigger] fits(range, reserved, lower, len) ==> false,
{
    let wanted = Segment { start: VirtAddr(start), len };
    assert(!wanted.overlaps(other));
}

/// Law: a place that lies in the range and meets no reservation fits.
pub proof fn law_free_place_fits(range: Segment, reserved: Set<Segment>, start: u64, len: u64)
    requires
        len > 0,
        range.start.0 <= start,
        start + len <= range.start.0 + range.len,
        start + len <= 0x1_0000_0000_0000_0000,
        forall|other: Segment, at: int|
            #![trigger reserved.contains(other), other.holds(at)]
            reserved.contains(other) && start <= at < start + len ==> !other.holds(at),
        forall|other: Segment| #[trigger] reserved.contains(other) ==> other.len > 0,
    ensures
        fits(range, reserved, start, len),
{
    let wanted = Segment { start: VirtAddr(start), len };
    assert forall|other: Segment| #[trigger] reserved.contains(other) implies !wanted.overlaps(
        other,
    ) by {
        if wanted.overlaps(other) {
            let at = if start < other.start.0 {
                other.start.0 as int
            } else {
                start as int
            };
            assert(other.holds(at));
        }
    }
}

} // verus!
