//! What system calls ask of their context.

use vstd::prelude::*;

use crate::abi::{Errno, ProtFlags, UserspacePtr};
use crate::vfs::path::AbsoluteOwnedPath;

verus! {

/// What is known of a file before it is opened.
pub trait FileInfo {

}

#[derive(Debug, Clone, Copy, PartialEq, Eq, Structural)]
pub enum FileAccessError {
    BadFileDescriptor,
    NotFound,
    AlreadyExists,
    NotDirectory,
    IsDirectory,
    DirectoryNotEmpty,
    NotSeekable,
    InvalidArgument,
    TooManyOpenFiles,
    NotReadable,
    NotWritable,
    BrokenPipe,
    Overflow,
    Io,
    OperationNotSupported,
}

/// The error number of a file access error.
pub open spec fn file_errno(error: FileAccessError) -> Errno {
    match error {
        FileAccessError::BadFileDescriptor => Errno::EBADF,
        FileAccessError::NotFound => Errno::ENOENT,
        FileAccessError::AlreadyExists => Errno::EEXIST,
        FileAccessError::NotDirectory => Errno::ENOTDIR,
        FileAccessError::IsDirectory => Errno::EISDIR,
        FileAccessError::DirectoryNotEmpty => Errno::ENOTEMPTY,
        FileAccessError::NotSeekable => Errno::ESPIPE,
        FileAccessError::InvalidArgument => Errno::EINVAL,
        FileAccessError::TooManyOpenFiles => Errno::EMFILE,
        FileAccessError::NotReadable => Errno::EACCES,
        FileAccessError::NotWritable => Errno::EACCES,
        FileAccessError::BrokenPipe => Errno::EPIPE,
        FileAccessError::Overflow => Errno::EOVERFLOW,
        FileAccessError::Io => Errno::EIO,
        FileAccessError::OperationNotSupported => Errno::EOPNOTSUPP,
    }
}

impl FileAccessError {
    #[must_use]
    pub fn errno(self) -> (errno: Errno)
        ensures
            errno == file_errno(self),
    {
        match self {
            FileAccessError::BadFileDescriptor => Errno::EBADF,
            FileAccessError::NotFound => Errno::ENOENT,
            FileAccessError::AlreadyExists => Errno::EEXIST,
            FileAccessError::NotDirectory => Errno::ENOTDIR,
            FileAccessError::IsDirectory => Errno::EISDIR,
            FileAccessError::DirectoryNotEmpty => Errno::ENOTEMPTY,
            FileAccessError::NotSeekable => Errno::ESPIPE,
            FileAccessError::InvalidArgument => Errno::EINVAL,
            FileAccessError::TooManyOpenFiles => Errno::EMFILE,
            FileAccessError::NotReadable => Errno::EACCES,
            FileAccessError::NotWritable => Errno::EACCES,
            FileAccessError::BrokenPipe => Errno::EPIPE,
            FileAccessError::Overflow => Errno::EOVERFLOW,
            FileAccessError::Io => Errno::EIO,
            FileAccessError::OperationNotSupported => Errno::EOPNOTSUPP,
        }
    }
}

/// The outcome that a user program sees: the value, or the error number.
pub open spec fn errno_outcome<T>(outcome: Result<T, FileAccessError>) -> Result<T, Errno> {
    match outcome {
        Ok(value) => Ok(value),
        Err(error) => Err(file_errno(error)),
    }
}

/// Turn the error of a file access into its number.
pub fn to_errno<T>(outcome: Result<T, FileAccessError>) -> (result: Result<T, Errno>)
    ensures
        result == errno_outcome(outcome),
{
    match outcome {
        Ok(value) => Ok(value),
        Err(error) => Err(error.errno()),
    }
}

/// Files, known by descriptors that have a number. What a call does is up to the
/// context.
pub trait FileAccess {
    type FileInfo: FileInfo;
    type Fd: From<i32> + Into<i32>;

    fn file_info(&self, path: &AbsoluteOwnedPath) -> Result<Self::FileInfo, FileAccessError>;

    fn open(&self, info: &Self::FileInfo) -> Result<Self::Fd, FileAccessError>;

    fn mkdir(&self, path: &AbsoluteOwnedPath) -> Result<(), FileAccessError>;

    fn rmdir(&self, path: &AbsoluteOwnedPath) -> Result<(), FileAccessError>;

    fn read(&self, fd: Self::Fd, buf: &mut [u8]) -> Result<usize, FileAccessError>;

    fn write(&self, fd: Self::Fd, buf: &[u8]) -> Result<usize, FileAccessError>;

    fn close(&self, fd: Self::Fd) -> Result<(), FileAccessError>;

    fn lseek(&self, fd: Self::Fd, offset: i64, whence: i32) -> Result<usize, FileAccessError>;

    fn pipe(&self) -> Result<(Self::Fd, Self::Fd), FileAccessError>;

    fn dup(&self, oldfd: Self::Fd) -> Result<Self::Fd, FileAccessError>;

    fn dup2(&self, oldfd: Self::Fd, newfd: Self::Fd) -> Result<Self::Fd, FileAccessError>;
}

/// The working directory.
pub trait CwdAccess {
    fn current_working_directory(&self) -> AbsoluteOwnedPath;

    fn chdir(&self, path: &AbsoluteOwnedPath) -> Result<(), Errno>;
}

#[derive(Debug, Clone, Copy, PartialEq, Eq, Structural)]
pub enum AllocationStrategy {
    Eager,
    Lazy,
}

#[derive(Debug, Clone, Copy, PartialEq, Eq, Structural)]
pub enum Location {
    Anywhere,
    Fixed(UserspacePtr),
}

pub trait Mapping {
    /// The address of the mapping.
    fn addr(&self) -> UserspacePtr;

    /// The length of the mapping.
    fn size(&self) -> usize;
}

#[derive(Debug, Clone, Copy, PartialEq, Eq, Structural)]
pub enum CreateMappingError {
    InvalidRequest,
    LocationAlreadyMapped,
    OutOfMemory,
    NotFound,
    Unsupported,
}

/// The error number of a mapping error.
pub open spec fn mapping_errno(error: CreateMappingError) -> Errno {
    if error == CreateMappingError::OutOfMemory {
        Errno::ENOMEM
    } else {
        Errno::EINVAL
    }
}

impl CreateMappingError {
    #[must_use]
    pub fn errno(self) -> (errno: Errno)
        ensures
            errno == mapping_errno(self),
    {
        match self {
            CreateMappingError::InvalidRequest => Errno::EINVAL,
            CreateMappingError::LocationAlreadyMapped => Errno::EINVAL,
            CreateMappingError::OutOfMemory => Errno::ENOMEM,
            CreateMappingError::NotFound => Errno::EINVAL,
            CreateMappingError::Unsupported => Errno::EINVAL,
        }
    }
}

/// What a user program sees of a new mapping: its address, or the error number.
pub open spec fn mapping_outcome(outcome: Result<UserspacePtr, CreateMappingError>) -> Result<
    usize,
    Errno,
> {
    match outcome {
        Ok(ptr) => Ok(ptr.spec_addr()),
        Err(error) => Err(mapping_errno(error)),
    }
}

/// Turn a new mapping into what a user program sees.
pub fn mapping_result(outcome: Result<UserspacePtr, CreateMappingError>) -> (result: Result<
    usize,
    Errno,
>)
    ensures
        result == mapping_outcome(outcome),
{
    match outcome {
        Ok(ptr) => Ok(ptr.addr()),
        Err(error) => Err(error.errno()),
    }
}

pub trait MemoryAccess {
    type Mapping: Mapping;

    fn create_mapping(
        &self,
        location: Location,
        size: usize,
        allocation_strategy: AllocationStrategy,
        protection: ProtFlags,
    ) -> Result<Self::Mapping, CreateMappingError>;
}

/// A tracked region of a process.
pub trait MemoryRegion {
    fn addr(&self) -> UserspacePtr;

    fn size(&self) -> usize;

    fn protection(&self) -> ProtFlags;
}

/// Mappings that are tracked as regions of the calling process.
pub trait MemoryRegionAccess {
    type Region: MemoryRegion;

    fn create_and_track_mapping(
        &self,
        location: Location,
        size: usize,
        allocation_strategy: AllocationStrategy,
        protection: ProtFlags,
    ) -> Result<UserspacePtr, CreateMappingError>;

    fn add_memory_region(&self, region: Self::Region);

    fn remove_memory_region(&self, addr: UserspacePtr) -> Result<(), CreateMappingError>;
}

/// Law: the error number of each file error; only the two lacking rights share one.
pub proof fn law_file_error_numbers(error: FileAccessError, other: FileAccessError)
    ensures
        ({
            let code = crate::abi::errno_code(file_errno(error));
            &&& code == match error {
                FileAccessError::BadFileDescriptor => 9i32,
                FileAccessError::NotFound => 2,
                FileAccessError::AlreadyExists => 17,
                FileAccessError::NotDirectory => 20,
                FileAccessError::IsDirectory => 21,
                FileAccessError::DirectoryNotEmpty => 39,
                FileAccessError::NotSeekable => 29,
                FileAccessError::InvalidArgument => 22,
                FileAccessError::TooManyOpenFiles => 24,
                FileAccessError::NotReadable => 13,
                FileAccessError::NotWritable => 13,
                FileAccessError::BrokenPipe => 32,
                FileAccessError::Overflow => 75,
                FileAccessError::Io => 5,
                FileAccessError::OperationNotSupported => 95,
            }
            &&& file_errno(error) == file_errno(other) ==> error == other || code == 13
        }),
{
}

/// Law: a value passes unchanged and an error as its number; of the errors of a mapping only
/// the lack of memory is told apart from an invalid request.
pub proof fn law_outcomes_pass<T>(value: T, error: FileAccessError, mapping: CreateMappingError)
    ensures
        errno_outcome(Ok::<T, FileAccessError>(value)) == Ok::<T, Errno>(value),
        errno_outcome(Err::<T, FileAccessError>(error)) == Err::<T, Errno>(file_errno(error)),
        crate::abi::errno_code(mapping_errno(mapping)) == if mapping is OutOfMemory {
            12i32
        } else {
            22
        },
        mapping_outcome(Err::<UserspacePtr, CreateMappingError>(mapping)) == Err::<usize, Errno>(
            mapping_errno(mapping),
        ),
{
}

/// Law: a user program sees the address of its new mapping.
pub proof fn law_mapping_address_passes(ptr: UserspacePtr)
    ensures
        mapping_outcome(Ok::<UserspacePtr, CreateMappingError>(ptr)) == Ok::<usize, Errno>(
            ptr.spec_addr(),
        ),
{
}

} // verus!
