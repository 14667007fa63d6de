//! Mapping memory for user programs.

use core::cell::{Cell, RefCell};

use axiomos::abi::{
    Errno, ProtFlags, UserspacePtr, MAP_ANONYMOUS, MAP_FIXED, MAP_PRIVATE, PROT_EXEC, PROT_READ,
    PROT_WRITE,
};
use axiomos::syscall::access::{
    AllocationStrategy, CreateMappingError, Location, MemoryRegion, MemoryRegionAccess,
};
use axiomos::syscall::mman::sys_mmap;

struct TestRegion {
    addr: UserspacePtr,
    size: usize,
    protection: ProtFlags,
}

impl MemoryRegion for TestRegion {
    fn addr(&self) -> UserspacePtr {
        self.addr
    }

    fn size(&self) -> usize {
        self.size
    }

    fn protection(&self) -> ProtFlags {
        self.protection
    }
}

struct TestMemoryAccess {
    /// Address, size and protection of each.
    mappings: RefCell<Vec<(usize, usize, ProtFlags)>>,
    next_addr: Cell<usize>,
}

impl TestMemoryAccess {
    fn new() -> Self {
        Self { mappings: RefCell::new(Vec::new()), next_addr: Cell::new(0x1000) }
    }
}

impl MemoryRegionAccess for TestMemoryAccess {
    type Region = TestRegion;

    fn create_and_track_mapping(
        &self,
        location: Location,
        size: usize,
        _allocation_strategy: AllocationStrategy,
        protection: ProtFlags,
    ) -> Result<UserspacePtr, CreateMappingError> {
        let addr = match location {
            Location::Anywhere => {
                let addr = self.next_addr.get();
                self.next_addr.set(addr + size);
                addr
            }
            Location::Fixed(ptr) => {
                let addr = ptr.addr();
                for (existing_addr, existing_size, _) in self.mappings.borrow().iter() {
                    if addr < existing_addr + existing_size && *existing_addr < addr + size {
                        return Err(CreateMappingError::LocationAlreadyMapped);
                    }
                }
                addr
            }
        };
        let ptr = UserspacePtr::try_from_usize(addr).unwrap();
        self.mappings.borrow_mut().push((addr, size, protection));
        self.add_memory_region(TestRegion { addr: ptr, size, protection });
        Ok(ptr)
    }

    fn add_memory_region(&self, region: Self::Region) {
        let last = *self.mappings.borrow().last().unwrap();
        assert_eq!((region.addr().addr(), region.size(), region.protection()), last);
    }

    fn remove_memory_region(&self, _addr: UserspacePtr) -> Result<(), CreateMappingError> {
        Ok(())
    }
}

fn null() -> UserspacePtr {
    UserspacePtr::try_from_usize(0).unwrap()
}

#[test]
fn test_mmap_anonymous_private() {
    let cx = TestMemoryAccess::new();

    let result = sys_mmap(
        &cx,
        null(),
        4096,
        PROT_READ | PROT_WRITE,
        MAP_ANONYMOUS | MAP_PRIVATE,
        0,
        0,
    );

    assert!(result.is_ok());
    let mapped_addr = result.unwrap();
    assert!(mapped_addr != 0);
    assert!(mapped_addr < (1_usize << 63)); // Lower half
}

#[test]
fn test_mmap_zero_size() {
    let cx = TestMemoryAccess::new();

    let result =
        sys_mmap(&cx, null(), 0, PROT_READ | PROT_WRITE, MAP_ANONYMOUS | MAP_PRIVATE, 0, 0);

    assert_eq!(result, Err(Errno::EINVAL));
}

#[test]
fn test_mmap_not_anonymous() {
    let cx = TestMemoryAccess::new();

    let result = sys_mmap(&cx, null(), 4096, PROT_READ | PROT_WRITE, MAP_PRIVATE, 0, 0);

    assert_eq!(result, Err(Errno::EINVAL));
}

#[test]
fn test_mmap_not_private() {
    let cx = TestMemoryAccess::new();

    let result = sys_mmap(&cx, null(), 4096, PROT_READ | PROT_WRITE, MAP_ANONYMOUS, 0, 0);

    assert_eq!(result, Err(Errno::EINVAL));
}

#[test]
fn test_mmap_fixed() {
    let cx = TestMemoryAccess::new();
    let fixed_addr = 0x100000;
    let addr = UserspacePtr::try_from_usize(fixed_addr).unwrap();

    let result = sys_mmap(
        &cx,
        addr,
        4096,
        PROT_READ | PROT_WRITE,
        MAP_ANONYMOUS | MAP_PRIVATE | MAP_FIXED,
        0,
        0,
    );

    assert!(result.is_ok());
    assert_eq!(result.unwrap(), fixed_addr);
}

#[test]
fn test_mmap_write_exec_mutually_exclusive() {
    let cx = TestMemoryAccess::new();

    let result =
        sys_mmap(&cx, null(), 4096, PROT_WRITE | PROT_EXEC, MAP_ANONYMOUS | MAP_PRIVATE, 0, 0);

    assert_eq!(result, Err(Errno::EINVAL));
}

#[test]
fn test_mmap_forwards_readonly_protection() {
    let cx = TestMemoryAccess::new();

    let result = sys_mmap(&cx, null(), 4096, PROT_READ, MAP_ANONYMOUS | MAP_PRIVATE, 0, 0);

    assert!(result.is_ok());
    assert_eq!(
        cx.mappings.borrow()[0].2,
        ProtFlags { read: true, write: false, execute: false }
    );
}

#[test]
fn test_mmap_rejects_prot_none_in_eager_mode() {
    let cx = TestMemoryAccess::new();

    let result = sys_mmap(&cx, null(), 4096, 0, MAP_ANONYMOUS | MAP_PRIVATE, 0, 0);

    assert_eq!(result, Err(Errno::EINVAL));
    assert!(cx.mappings.borrow().is_empty());
}

#[test]
fn fixed_mapping_over_another_is_refused() {
    let cx = TestMemoryAccess::new();
    let addr = UserspacePtr::try_from_usize(0x10_0000).unwrap();
    let flags = MAP_ANONYMOUS | MAP_PRIVATE | MAP_FIXED;

    assert_eq!(sys_mmap(&cx, addr, 8192, PROT_READ, flags, 0, 0), Ok(0x10_0000));
    assert_eq!(sys_mmap(&cx, addr, 4096, PROT_READ, flags, 0, 0), Err(Errno::EINVAL));
}

// Arguments derived from raw bytes, as a user program could hand them over.

struct BoundaryMemory;

impl MemoryRegionAccess for BoundaryMemory {
    type Region = TestRegion;

    fn create_and_track_mapping(
        &self,
        location: Location,
        size: usize,
        allocation_strategy: AllocationStrategy,
        protection: ProtFlags,
    ) -> Result<UserspacePtr, CreateMappingError> {
        if size == 0 || allocation_strategy != AllocationStrategy::Eager || protection.is_empty() {
            return Err(CreateMappingError::InvalidRequest);
        }
        match location {
            Location::Anywhere => UserspacePtr::try_from_usize(0x1000)
                .map_err(|_| CreateMappingError::InvalidRequest),
            Location::Fixed(address) => {
                address
                    .validate_range(size)
                    .map_err(|_| CreateMappingError::InvalidRequest)?;
                Ok(address)
            }
        }
    }

    fn add_memory_region(&self, _region: Self::Region) {}

    fn remove_memory_region(&self, _addr: UserspacePtr) -> Result<(), CreateMappingError> {
        Ok(())
    }
}

fn word(data: &[u8], offset: usize) -> usize {
    let mut bytes = [0u8; 8];
    let available = data.get(offset..).unwrap_or_default();
    let count = available.len().min(bytes.len());
    bytes[..count].copy_from_slice(&available[..count]);
    usize::from_le_bytes(bytes)
}

fn exercise_raw_arguments(data: &[u8]) {
    let address = word(data, 0);
    let length = word(data, 8);
    let prot = word(data, 16) as i32;
    let flags = word(data, 20) as i32;
    let fd = word(data, 24) as i32;
    let offset = word(data, 28);

    let Ok(address) = UserspacePtr::try_from_usize(address) else {
        return;
    };
    let result = sys_mmap(&BoundaryMemory, address, length, prot, flags, fd, offset);
    if let Ok(mapped) = result {
        assert!(mapped < (1usize << 47));
    }
}

fn exercise_structured_arguments(data: &[u8]) {
    let control = data.first().copied().unwrap_or_default();
    let requested_address = 0x1000usize + (word(data, 1) & 0x0000_0000_0fff_e000);
    let length = ((usize::from(control) & 0x0f) + 1) * 4096;
    let protection = match (control >> 4) & 0x03 {
        0 => PROT_READ,
        1 => PROT_WRITE,
        2 => PROT_EXEC,
        _ => PROT_READ | PROT_WRITE,
    };
    let flags = MAP_ANONYMOUS | MAP_PRIVATE;
    let (address, flags) = if control & 0x40 == 0 {
        (null(), flags)
    } else {
        (
            UserspacePtr::try_from_usize(requested_address)
                .expect("masked address stays in user space"),
            flags | MAP_FIXED,
        )
    };

    let mapped = sys_mmap(&BoundaryMemory, address, length, protection, flags, -1, 0)
        .expect("structured mmap request must reach and pass the transaction boundary");
    assert!(mapped < (1usize << 47));
}

#[test]
fn arbitrary_arguments_never_map_outside_user_space() {
    let mut state = 0x9E37_79B9_7F4A_7C15u64;
    for round in 0..20_000usize {
        let mut data = Vec::new();
        for _ in 0..(round % 40) {
            state = state.wrapping_mul(6364136223846793005).wrapping_add(1);
            data.push((state >> 56) as u8);
        }
        exercise_raw_arguments(&data);
        exercise_structured_arguments(&data);
    }
}
