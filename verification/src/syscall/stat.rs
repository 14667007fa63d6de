//! File status for user programs.

use vstd::prelude::*;

use crate::abi::Errno;
use crate::syscall::access::{errno_outcome, to_errno, FileAccess, FileAccessError};

verus! {

/// File status as user programs lay it out.
#[derive(Debug, Clone, Copy, PartialEq, Eq)]
pub struct UserStat {
    pub st_dev: u64,
    pub st_ino: u64,
    pub st_nlink: u64,
    /// Type and permissions.
    pub st_mode: u32,
    pub st_uid: u32,
    pub st_gid: u32,
    pub __pad0: u32,
    pub st_rdev: u64,
    pub st_size: i64,
    pub st_blksize: i64,
    /// In units of 512 bytes.
    pub st_blocks: i64,
    pub st_atime: i64,
    pub st_atime_nsec: i64,
    pub st_mtime: i64,
    pub st_mtime_nsec: i64,
    pub st_ctime: i64,
    pub st_ctime_nsec: i64,
    pub __unused: [i64; 3],
}

impl Default for UserStat {
    fn default() -> (stat: Self)
        ensures
            stat.st_dev == 0,
            stat.st_ino == 0,
            stat.st_nlink == 0,
            stat.st_mode == 0,
            stat.st_uid == 0,
            stat.st_gid == 0,
            stat.__pad0 == 0,
            stat.st_rdev == 0,
            stat.st_size == 0,
            stat.st_blksize == 0,
            stat.st_blocks == 0,
            stat.st_atime == 0,
            stat.st_atime_nsec == 0,
            stat.st_mtime == 0,
            stat.st_mtime_nsec == 0,
            stat.st_ctime == 0,
            stat.st_ctime_nsec == 0,
            stat.__unused@ == seq![0i64, 0, 0],
    {
        let unused = [0i64, 0, 0];
        assert(unused@ =~= seq![0i64, 0, 0]);
        UserStat {
            st_dev: 0,
            st_ino: 0,
            st_nlink: 0,
            st_mode: 0,
            st_uid: 0,
            st_gid: 0,
            __pad0: 0,
            st_rdev: 0,
            st_size: 0,
            st_blksize: 0,
            st_blocks: 0,
            st_atime: 0,
            st_atime_nsec: 0,
            st_mtime: 0,
            st_mtime_nsec: 0,
            st_ctime: 0,
            st_ctime_nsec: 0,
            __unused: unused,
        }
    }
}

/// Mask of the file type in a mode.
pub const S_IFMT: u32 = 0o170000;

pub const S_IFREG: u32 = 0o100000;

pub const S_IFDIR: u32 = 0o040000;

pub const S_IFCHR: u32 = 0o020000;

pub const S_IFBLK: u32 = 0o060000;

pub const S_IFIFO: u32 = 0o010000;

pub const S_IFLNK: u32 = 0o120000;

pub const S_IFSOCK: u32 = 0o140000;

/// A context that can tell the status of an open file.
pub trait StatAccess: FileAccess {
    fn fstat(&self, fd: Self::Fd) -> Result<UserStat, FileAccessError>;
}

/// The status of an open file, as the context tells it.
pub fn sys_fstat<Cx: StatAccess>(cx: &Cx, fildes: Cx::Fd) -> (result: Result<UserStat, Errno>)
    ensures
        exists|outcome: Result<UserStat, FileAccessError>| #[trigger]
            call_ensures(Cx::fstat, (cx, fildes), outcome) && result == errno_outcome(outcome),
{
    let outcome = cx.fstat(fildes);
    assert(call_ensures(Cx::fstat, (cx, fildes), outcome));
    to_errno(outcome)
}

/// Law: the file types of a mode are the numbers 1, 2, 4, 6, 8, 10 and 12 in its bits 12 to
/// 15, and the mask covers exactly those.
pub proof fn law_mode_types()
    ensures
        S_IFIFO == 0x1000,
        S_IFCHR == 2 * S_IFIFO,
        S_IFDIR == 4 * S_IFIFO,
        S_IFBLK == 6 * S_IFIFO,
        S_IFREG == 8 * S_IFIFO,
        S_IFLNK == 10 * S_IFIFO,
        S_IFSOCK == 12 * S_IFIFO,
        S_IFMT == 15 * S_IFIFO,
{
}

} // verus!
