//! Allocating and freeing memory for user programs.

use core::cell::RefCell;

use axiomos::abi::{Errno, ProtFlags, UserspacePtr};
use axiomos::syscall::access::{
    AllocationStrategy, CreateMappingError, Location, MemoryRegion, MemoryRegionAccess,
};
use axiomos::syscall::malloc::{sys_free, sys_malloc};

const MAPPED_ADDR: usize = 0x4000;

struct TestRegion;

impl MemoryRegion for TestRegion {
    fn addr(&self) -> UserspacePtr {
        unreachable!("malloc tests never construct tracked regions")
    }

    fn size(&self) -> usize {
        0
    }

    fn protection(&self) -> ProtFlags {
        ProtFlags { read: false, write: false, execute: false }
    }
}

#[derive(Debug, Clone, Copy, PartialEq, Eq)]
struct MappingRequest {
    anywhere: bool,
    size: usize,
    allocation_strategy: AllocationStrategy,
    protection: ProtFlags,
}

struct TestMemoryAccess {
    create_error: Option<CreateMappingError>,
    remove_error: Option<CreateMappingError>,
    requests: RefCell<Vec<MappingRequest>>,
    removed: RefCell<Vec<usize>>,
}

impl TestMemoryAccess {
    fn succeeds() -> Self {
        Self {
            create_error: None,
            remove_error: None,
            requests: RefCell::new(Vec::new()),
            removed: RefCell::new(Vec::new()),
        }
    }

    fn create_fails(error: CreateMappingError) -> Self {
        Self { create_error: Some(error), ..Self::succeeds() }
    }

    fn remove_fails(error: CreateMappingError) -> Self {
        Self { remove_error: Some(error), ..Self::succeeds() }
    }
}

impl MemoryRegionAccess for TestMemoryAccess {
    type Region = TestRegion;

    fn create_and_track_mapping(
        &self,
        location: Location,
        size: usize,
        allocation_strategy: AllocationStrategy,
        protection: ProtFlags,
    ) -> Result<UserspacePtr, CreateMappingError> {
        self.requests.borrow_mut().push(MappingRequest {
            anywhere: matches!(location, Location::Anywhere),
            size,
            allocation_strategy,
            protection,
        });
        if let Some(error) = self.create_error {
            return Err(error);
        }
        Ok(UserspacePtr::try_from_usize(MAPPED_ADDR).unwrap())
    }

    fn add_memory_region(&self, _region: Self::Region) {
        unreachable!("sys_malloc commits through create_and_track_mapping")
    }

    fn remove_memory_region(&self, addr: UserspacePtr) -> Result<(), CreateMappingError> {
        self.removed.borrow_mut().push(addr.addr());
        self.remove_error.map_or(Ok(()), Err)
    }
}

#[test]
fn malloc_rejects_zero_without_creating_a_mapping() {
    let cx = TestMemoryAccess::succeeds();

    assert_eq!(sys_malloc(&cx, 0), Err(Errno::EINVAL));
    assert!(cx.requests.borrow().is_empty());
}

#[test]
fn malloc_requests_an_eager_read_write_mapping_anywhere() {
    let cx = TestMemoryAccess::succeeds();

    assert_eq!(sys_malloc(&cx, 4096), Ok(MAPPED_ADDR));
    assert_eq!(
        cx.requests.borrow().as_slice(),
        [MappingRequest {
            anywhere: true,
            size: 4096,
            allocation_strategy: AllocationStrategy::Eager,
            protection: ProtFlags { read: true, write: true, execute: false },
        }]
    );
}

#[test]
fn malloc_maps_all_context_errors_to_the_documented_errno() {
    for (error, expected) in [
        (CreateMappingError::InvalidRequest, Errno::EINVAL),
        (CreateMappingError::LocationAlreadyMapped, Errno::EINVAL),
        (CreateMappingError::OutOfMemory, Errno::ENOMEM),
        (CreateMappingError::NotFound, Errno::EINVAL),
        (CreateMappingError::Unsupported, Errno::EINVAL),
    ] {
        let cx = TestMemoryAccess::create_fails(error);
        assert_eq!(sys_malloc(&cx, 4096), Err(expected));
    }
}

#[test]
fn free_rejects_null_and_kernel_addresses_without_removing_a_region() {
    let cx = TestMemoryAccess::succeeds();

    assert_eq!(sys_free(&cx, 0), Err(Errno::EINVAL));
    assert_eq!(sys_free(&cx, 0xffff_8000_0000_0000), Err(Errno::EINVAL));
    assert!(cx.removed.borrow().is_empty());
}

#[test]
fn free_removes_the_requested_userspace_region() {
    let cx = TestMemoryAccess::succeeds();

    assert_eq!(sys_free(&cx, MAPPED_ADDR), Ok(0));
    assert_eq!(cx.removed.borrow().as_slice(), [MAPPED_ADDR]);
}

#[test]
fn free_maps_context_errors_to_invalid_argument() {
    for error in [CreateMappingError::NotFound, CreateMappingError::OutOfMemory] {
        let cx = TestMemoryAccess::remove_fails(error);
        assert_eq!(sys_free(&cx, MAPPED_ADDR), Err(Errno::EINVAL));
        assert_eq!(cx.removed.borrow().as_slice(), [MAPPED_ADDR]);
    }
}
