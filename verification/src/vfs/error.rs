//! Errors of file system operations.

use vstd::prelude::*;

verus! {

#[derive(Debug, Copy, Clone, PartialEq, Eq, Structural)]
pub enum MountError {
    /// The mount point is already used by another mount.
    AlreadyMounted,
}

#[derive(Debug, Copy, Clone, PartialEq, Eq, Structural)]
pub enum UnmountError {
    NotMounted,
}

#[derive(Debug, Copy, Clone, PartialEq, Eq, Structural)]
pub enum OpenError {
    NotFound,
    IsDirectory,
    UnsupportedFileType,
}

#[derive(Debug, Copy, Clone, PartialEq, Eq, Structural)]
pub enum CloseError {
    NotOpen,
}

#[derive(Debug, Copy, Clone, PartialEq, Eq, Structural)]
pub enum FsError {
    FileSystemNotOpen,
    InvalidHandle,
}

#[derive(Debug, Copy, Clone, PartialEq, Eq, Structural)]
pub enum ReadError {
    FsError(FsError),
    EndOfFile,
    ReadFailed,
    NotReadable,
}

#[derive(Debug, Copy, Clone, PartialEq, Eq, Structural)]
pub enum WriteError {
    FsError(FsError),
    WriteFailed,
    NotWritable,
    /// The pipe has no reader.
    BrokenPipe,
}

#[derive(Debug, Copy, Clone, PartialEq, Eq, Structural)]
pub enum StatError {
    FsError(FsError),
}

#[derive(Debug, Copy, Clone, PartialEq, Eq, Structural)]
pub enum MkdirError {
    FsError(FsError),
    AlreadyExists,
    /// The parent is not found.
    NotFound,
    /// The parent is not a directory.
    NotADirectory,
    Unsupported,
}

#[derive(Debug, Copy, Clone, PartialEq, Eq, Structural)]
pub enum RmdirError {
    FsError(FsError),
    NotFound,
    NotADirectory,
    NotEmpty,
    Unsupported,
}

impl vstd::std_specs::convert::FromSpecImpl<FsError> for ReadError {
    open spec fn obeys_from_spec() -> bool {
        true
    }

    open spec fn from_spec(error: FsError) -> ReadError {
        ReadError::FsError(error)
    }
}

impl From<FsError> for ReadError {
    fn from(error: FsError) -> ReadError {
        ReadError::FsError(error)
    }
}

impl vstd::std_specs::convert::FromSpecImpl<FsError> for WriteError {
    open spec fn obeys_from_spec() -> bool {
        true
    }

    open spec fn from_spec(error: FsError) -> WriteError {
        WriteError::FsError(error)
    }
}

impl From<FsError> for WriteError {
    fn from(error: FsError) -> WriteError {
        WriteError::FsError(error)
    }
}

impl vstd::std_specs::convert::FromSpecImpl<FsError> for StatError {
    open spec fn obeys_from_spec() -> bool {
        true
    }

    open spec fn from_spec(error: FsError) -> StatError {
        StatError::FsError(error)
    }
}

impl From<FsError> for StatError {
    fn from(error: FsError) -> StatError {
        StatError::FsError(error)
    }
}

impl vstd::std_specs::convert::FromSpecImpl<FsError> for MkdirError {
    open spec fn obeys_from_spec() -> bool {
        true
    }

    open spec fn from_spec(error: FsError) -> MkdirError {
        MkdirError::FsError(error)
    }
}

impl From<FsError> for MkdirError {
    fn from(error: FsError) -> MkdirError {
        MkdirError::FsError(error)
    }
}

impl vstd::std_specs::convert::FromSpecImpl<FsError> for RmdirError {
    open spec fn obeys_from_spec() -> bool {
        true
    }

    open spec fn from_spec(error: FsError) -> RmdirError {
        RmdirError::FsError(error)
    }
}

impl From<FsError> for RmdirError {
    fn from(error: FsError) -> RmdirError {
        RmdirError::FsError(error)
    }
}

/// Law: an error of the file system stays the same error inside that of each operation.
pub proof fn law_file_system_errors_are_kept(error: FsError)
    ensures
        <ReadError as vstd::std_specs::convert::FromSpec<FsError>>::from_spec(error) == ReadError::FsError(
            error,
        ),
        <WriteError as vstd::std_specs::convert::FromSpec<FsError>>::from_spec(error) == WriteError::FsError(
            error,
        ),
        <StatError as vstd::std_specs::convert::FromSpec<FsError>>::from_spec(error) == StatError::FsError(
            error,
        ),
        <MkdirError as vstd::std_specs::convert::FromSpec<FsError>>::from_spec(error) == MkdirError::FsError(
            error,
        ),
        <RmdirError as vstd::std_specs::convert::FromSpec<FsError>>::from_spec(error) == RmdirError::FsError(
            error,
        ),
{
}

} // verus!
