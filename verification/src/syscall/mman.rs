//! Memory mappings.

use vstd::prelude::*;

use crate::abi::{Errno, MapFlags, ProtFlags, UserspacePtr, USER_END};
use crate::syscall::access::{
    mapping_outcome, mapping_result, AllocationStrategy, CreateMappingError, Location,
    MemoryRegionAccess,
};

verus! {

/// A request that is passed on to the context: an anonymous private mapping of
/// at least one byte, with some access but not both writable and executable,
/// and at a fixed place only if that lies in user space and is not null.
pub open spec fn acceptable(
    addr: UserspacePtr,
    len: usize,
    prot: ProtFlags,
    flags: MapFlags,
) -> bool {
    &&& len > 0
    &&& flags.anonymous
    &&& flags.private
    &&& !prot.none()
    &&& !(prot.write && prot.execute)
    &&& flags.fixed ==> addr.spec_addr() != 0 && addr.spec_addr() + len <= USER_END
}

/// Where an acceptable mapping goes.
pub open spec fn location_of(addr: UserspacePtr, flags: MapFlags) -> Location {
    if flags.fixed {
        Location::Fixed(addr)
    } else {
        Location::Anywhere
    }
}

/// Check a request. `None` if it is refused.
pub fn plan_mmap(addr: UserspacePtr, len: usize, prot: i32, flags: i32) -> (plan: Option<
    (Location, ProtFlags),
>)
    ensures
        match plan {
            Some((location, protection)) => exists|kind: MapFlags|
                {
                    &&& #[trigger] kind.spec_bits() == flags
                    &&& protection.spec_bits() == prot
                    &&& acceptable(addr, len, protection, kind)
                    &&& location == location_of(addr, kind)
                },
            None => forall|protection: ProtFlags, kind: MapFlags|
                #[trigger] protection.spec_bits() == prot && #[trigger] kind.spec_bits() == flags
                    ==> !acceptable(addr, len, protection, kind),
        },
{
    if len == 0 {
        return None;
    }
    let kind = match MapFlags::from_bits(flags) {
        Some(kind) => kind,
        None => {
            return None;
        },
    };
    if !kind.anonymous || !kind.private {
        return None;
    }
    let protection = match ProtFlags::from_bits(prot) {
        Some(protection) => protection,
        None => {
            return None;
        },
    };
    if protection.is_empty() {
        return None;
    }
    if protection.write && protection.execute {
        return None;
    }
    if kind.fixed {
        if addr.is_null() {
            return None;
        }
        if addr.validate_range(len).is_err() {
            return None;
        }
        assert(kind.spec_bits() == flags);
        Some((Location::Fixed(addr), protection))
    } else {
        assert(kind.spec_bits() == flags);
        Some((Location::Anywhere, protection))
    }
}

/// Map `len` bytes. Without `MAP_FIXED` the address is a hint and is ignored.
/// A refused request does not reach the context; others are made at once, with
/// exactly the rights asked for.
pub fn sys_mmap<Cx: MemoryRegionAccess>(
    cx: &Cx,
    addr: UserspacePtr,
    len: usize,
    prot: i32,
    flags: i32,
    _fd: i32,
    _offset: usize,
) -> (result: Result<usize, Errno>)
    ensures
        forall|protection: ProtFlags, kind: MapFlags|
            #[trigger] protection.spec_bits() == prot && #[trigger] kind.spec_bits() == flags
                && acceptable(addr, len, protection, kind) ==> exists|
                outcome: Result<UserspacePtr, CreateMappingError>,
            |
                {
                    &&& #[trigger] call_ensures(
                        Cx::create_and_track_mapping,
                        (
                            cx,
                            location_of(addr, kind),
                            len,
                            AllocationStrategy::Eager,
                            protection,
                        ),
                        outcome,
                    )
                    &&& result == mapping_outcome(outcome)
                },
        (forall|protection: ProtFlags, kind: MapFlags|
            #[trigger] protection.spec_bits() == prot && #[trigger] kind.spec_bits() == flags
                ==> !acceptable(addr, len, protection, kind)) ==> result == Err::<usize, Errno>(
            Errno::EINVAL,
        ),
{
    let (location, protection): (Location, ProtFlags) = match plan_mmap(addr, len, prot, flags) {
        Some(plan) => plan,
        None => {
            return Err(Errno::EINVAL);
        },
    };
    let outcome = cx.create_and_track_mapping(
        location,
        len,
        AllocationStrategy::Eager,
        protection,
    );
    proof {
        let kind = choose|kind: MapFlags|
            {
                &&& #[trigger] kind.spec_bits() == flags
                &&& protection.spec_bits() == prot
                &&& acceptable(addr, len, protection, kind)
                &&& location == location_of(addr, kind)
            };
        assert(call_ensures(
            Cx::create_and_track_mapping,
            (cx, location_of(addr, kind), len, AllocationStrategy::Eager, protection),
            outcome,
        ));
        assert forall|other: ProtFlags, word: MapFlags|
            #[trigger] other.spec_bits() == prot && #[trigger] word.spec_bits() == flags implies other
            == protection && word == kind by {
            crate::abi::law_prot_bits_are_unique(other, protection);
            crate::abi::law_map_bits_are_unique(word, kind);
        }
    }
    mapping_result(outcome)
}

/// Law: no mapping that is both writable and executable ever reaches the
/// context.
pub proof fn law_writable_or_executable(
    addr: UserspacePtr,
    len: usize,
    prot: ProtFlags,
    flags: MapFlags,
)
    requires
        acceptable(addr, len, prot, flags),
    ensures
        !(prot.write && prot.execute),
        flags.fixed ==> 0 < addr.spec_addr() && addr.spec_addr() + len <= USER_END,
{
}

/// Law: what is mapped: at least one byte, anonymous and private, with some right but never
/// to be both written and executed, and at a fixed place only where that lies in user space.
/// Without a fixed place the address is ignored.
pub proof fn law_what_is_mapped(addr: UserspacePtr, len: usize, prot: ProtFlags, flags: MapFlags)
    ensures
        acceptable(addr, len, prot, flags) <==> len > 0 && flags.anonymous && flags.private && (
        prot.read || prot.write || prot.execute) && !(prot.write && prot.execute) && (!flags.fixed
            || (addr.spec_addr() > 0 && addr.spec_addr() + len <= 0x8000_0000_0000)),
        flags.fixed ==> location_of(addr, flags) == Location::Fixed(addr),
        !flags.fixed ==> location_of(addr, flags) == Location::Anywhere,
{
}

} // verus!
