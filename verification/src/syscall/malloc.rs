//! Allocation of anonymous memory.

use vstd::prelude::*;

use crate::abi::{Errno, ProtFlags, UserspacePtr, USER_END};
use crate::syscall::access::{
    mapping_outcome, mapping_result, AllocationStrategy, CreateMappingError, Location,
    MemoryRegionAccess,
};

verus! {

/// Rights of allocated memory.
pub open spec fn heap_protection() -> ProtFlags {
    ProtFlags { read: true, write: true, execute: false }
}

/// Allocate `size` bytes anywhere, readable and writable, at once. Zero is
/// refused without asking the context.
pub fn sys_malloc<Cx: MemoryRegionAccess>(cx: &Cx, size: usize) -> (result: Result<usize, Errno>)
    ensures
        size == 0 ==> result == Err::<usize, Errno>(Errno::EINVAL),
        size != 0 ==> exists|outcome: Result<UserspacePtr, CreateMappingError>|
            {
                &&& #[trigger] call_ensures(
                    Cx::create_and_track_mapping,
                    (cx, Location::Anywhere, size, AllocationStrategy::Eager, heap_protection()),
                    outcome,
                )
                &&& result == mapping_outcome(outcome)
            },
{
    if size == 0 {
        return Err(Errno::EINVAL);
    }
    let protection = ProtFlags { read: true, write: true, execute: false };
    let outcome = cx.create_and_track_mapping(
        Location::Anywhere,
        size,
        AllocationStrategy::Eager,
        protection,
    );
    assert(call_ensures(
        Cx::create_and_track_mapping,
        (cx, Location::Anywhere, size, AllocationStrategy::Eager, heap_protection()),
        outcome,
    ));
    mapping_result(outcome)
}

/// What freeing returns for what the context says.
pub open spec fn free_outcome(outcome: Result<(), CreateMappingError>) -> Result<usize, Errno> {
    match outcome {
        Ok(()) => Ok(0),
        Err(_) => Err(Errno::EINVAL),
    }
}

/// Turn the context's answer to a removal into the result of freeing.
pub fn free_result(outcome: Result<(), CreateMappingError>) -> (result: Result<usize, Errno>)
    ensures
        result == free_outcome(outcome),
{
    match outcome {
        Ok(()) => Ok(0),
        Err(_) => Err(Errno::EINVAL),
    }
}

/// Free the region at `ptr`. Null and kernel addresses are refused without
/// asking the context.
pub fn sys_free<Cx: MemoryRegionAccess>(cx: &Cx, ptr: usize) -> (result: Result<usize, Errno>)
    ensures
        ptr == 0 || ptr >= USER_END ==> result == Err::<usize, Errno>(Errno::EINVAL),
        0 < ptr < USER_END ==> exists|
            user_ptr: UserspacePtr,
            outcome: Result<(), CreateMappingError>,
        |
            {
                &&& #[trigger] call_ensures(Cx::remove_memory_region, (cx, user_ptr), outcome)
                &&& user_ptr.wf()
                &&& user_ptr.spec_addr() == ptr
                &&& result == free_outcome(outcome)
            },
{
    if ptr == 0 {
        return Err(Errno::EINVAL);
    }
    let user_ptr = match UserspacePtr::try_from_usize(ptr) {
        Ok(user_ptr) => user_ptr,
        Err(error) => {
            return Err(error);
        },
    };
    let outcome = cx.remove_memory_region(user_ptr);
    assert(call_ensures(Cx::remove_memory_region, (cx, user_ptr), outcome));
    free_result(outcome)
}

/// Law: allocated memory can be read and written but not executed; freeing succeeds with zero
/// or is refused as invalid.
pub proof fn law_heap_rights(error: CreateMappingError)
    ensures
        heap_protection().read && heap_protection().write && !heap_protection().execute,
        free_outcome(Ok::<(), CreateMappingError>(())) == Ok::<usize, Errno>(0),
        free_outcome(Err::<(), CreateMappingError>(error)) == Err::<usize, Errno>(Errno::EINVAL),
{
}

} // verus!
