//! Error numbers, flag words and limits of the system call interface.

use vstd::prelude::*;

verus! {

/// Error numbers.
#[derive(Debug, Clone, Copy, PartialEq, Eq, Structural)]
pub enum Errno {
    ENOENT,
    EIO,
    EBADF,
    ENOMEM,
    EACCES,
    EFAULT,
    EEXIST,
    ENOTDIR,
    EISDIR,
    EINVAL,
    EMFILE,
    ESPIPE,
    EPIPE,
    ERANGE,
    ENAMETOOLONG,
    ENOTEMPTY,
    EOVERFLOW,
    EOPNOTSUPP,
}

/// The number that user programs see.
pub open spec fn errno_code(errno: Errno) -> i32 {
    match errno {
        Errno::ENOENT => 2,
        Errno::EIO => 5,
        Errno::EBADF => 9,
        Errno::ENOMEM => 12,
        Errno::EACCES => 13,
        Errno::EFAULT => 14,
        Errno::EEXIST => 17,
        Errno::ENOTDIR => 20,
        Errno::EISDIR => 21,
        Errno::EINVAL => 22,
        Errno::EMFILE => 24,
        Errno::ESPIPE => 29,
        Errno::EPIPE => 32,
        Errno::ERANGE => 34,
        Errno::ENAMETOOLONG => 36,
        Errno::ENOTEMPTY => 39,
        Errno::EOVERFLOW => 75,
        Errno::EOPNOTSUPP => 95,
    }
}

impl Errno {
    /// The number that user programs see.
    pub fn code(self) -> (code: i32)
        ensures
            code == errno_code(self),
            code > 0,
    {
        match self {
            Errno::ENOENT => 2,
            Errno::EIO => 5,
            Errno::EBADF => 9,
            Errno::ENOMEM => 12,
            Errno::EACCES => 13,
            Errno::EFAULT => 14,
            Errno::EEXIST => 17,
            Errno::ENOTDIR => 20,
            Errno::EISDIR => 21,
            Errno::EINVAL => 22,
            Errno::EMFILE => 24,
            Errno::ESPIPE => 29,
            Errno::EPIPE => 32,
            Errno::ERANGE => 34,
            Errno::ENAMETOOLONG => 36,
            Errno::ENOTEMPTY => 39,
            Errno::EOVERFLOW => 75,
            Errno::EOPNOTSUPP => 95,
        }
    }
}

/// Law: different errors have different numbers.
pub proof fn law_errno_codes_differ(a: Errno, b: Errno)
    ensures
        errno_code(a) == errno_code(b) ==> a == b,
{
}

/// Longest path, in bytes.
pub const PATH_MAX: usize = 4096;

/// Most buffers of a gathered write.
pub const UIO_MAXIOV: usize = 1024;

/// First address above user space.
pub const USER_END: u64 = 0x0000_8000_0000_0000;

/// First address above user space with 48-bit user addresses.
pub const USER_END_AARCH64: u64 = 0x0001_0000_0000_0000;

pub const PROT_READ: i32 = 1;

pub const PROT_WRITE: i32 = 2;

pub const PROT_EXEC: i32 = 4;

/// Access rights of a mapping.
#[derive(Debug, Clone, Copy, PartialEq, Eq, Structural)]
pub struct ProtFlags {
    pub read: bool,
    pub write: bool,
    pub execute: bool,
}

/// `weight` if `set`.
pub open spec fn flag_bit(set: bool, weight: int) -> int {
    if set {
        weight
    } else {
        0
    }
}

impl ProtFlags {
    pub open spec fn spec_bits(self) -> int {
        flag_bit(self.read, 1) + flag_bit(self.write, 2) + flag_bit(self.execute, 4)
    }

    /// The flags of a word; `None` if it has any other bit.
    pub fn from_bits(bits: i32) -> (flags: Option<Self>)
        ensures
            flags is Some <==> 0 <= bits < 8,
            flags is Some ==> flags->0.spec_bits() == bits,
    {
        if bits < 0 || bits >= 8 {
            return None;
        }
        Some(
            ProtFlags {
                read: bits % 2 == 1,
                write: bits % 4 >= 2,
                execute: bits >= 4,
            },
        )
    }

    pub fn bits(self) -> (bits: i32)
        ensures
            bits == self.spec_bits(),
    {
        let read: i32 = if self.read {
            PROT_READ
        } else {
            0
        };
        let write: i32 = if self.write {
            PROT_WRITE
        } else {
            0
        };
        let execute: i32 = if self.execute {
            PROT_EXEC
        } else {
            0
        };
        read + write + execute
    }

    pub open spec fn none(self) -> bool {
        !self.read && !self.write && !self.execute
    }

    /// No access at all.
    pub fn is_empty(self) -> (empty: bool)
        ensures
            empty == self.none(),
    {
        !self.read && !self.write && !self.execute
    }
}

/// Law: a word of protection flags and its flags determine each other.
pub proof fn law_prot_bits_are_unique(a: ProtFlags, b: ProtFlags)
    ensures
        a.spec_bits() == b.spec_bits() ==> a == b,
        0 <= a.spec_bits() < 8,
{
}

pub const MAP_PRIVATE: i32 = 0x02;

pub const MAP_FIXED: i32 = 0x10;

pub const MAP_ANONYMOUS: i32 = 0x20;

/// Kind of a mapping.
#[derive(Debug, Clone, Copy, PartialEq, Eq, Structural)]
pub struct MapFlags {
    pub private: bool,
    pub fixed: bool,
    pub anonymous: bool,
}

impl MapFlags {
    pub open spec fn spec_bits(self) -> int {
        flag_bit(self.private, 0x02) + flag_bit(self.fixed, 0x10) + flag_bit(self.anonymous, 0x20)
    }

    /// The flags of a word; `None` if it has any other bit.
    pub fn from_bits(bits: i32) -> (flags: Option<Self>)
        ensures
            match flags {
                Some(flags) => flags.spec_bits() == bits,
                None => forall|flags: MapFlags| #[trigger] flags.spec_bits() != bits,
            },
    {
        if bits < 0 || bits >= 0x40 {
            return None;
        }
        let low: i32 = bits % 16;
        if low != 0 && low != 2 {
            return None;
        }
        Some(
            MapFlags {
                private: low == 2,
                fixed: (bits / 16) % 2 == 1,
                anonymous: bits >= 0x20,
            },
        )
    }

    pub fn bits(self) -> (bits: i32)
        ensures
            bits == self.spec_bits(),
    {
        let private: i32 = if self.private {
            MAP_PRIVATE
        } else {
            0
        };
        let fixed: i32 = if self.fixed {
            MAP_FIXED
        } else {
            0
        };
        let anonymous: i32 = if self.anonymous {
            MAP_ANONYMOUS
        } else {
            0
        };
        private + fixed + anonymous
    }
}

/// Law: a word of mapping flags and its flags determine each other.
pub proof fn law_map_bits_are_unique(a: MapFlags, b: MapFlags)
    ensures
        a.spec_bits() == b.spec_bits() ==> a == b,
{
}

/// An address in user space. It says nothing about what is mapped there.
#[derive(Debug, Clone, Copy, PartialEq, Eq, Structural)]
pub struct UserspacePtr {
    addr: usize,
}

impl UserspacePtr {
    pub closed spec fn spec_addr(self) -> usize {
        self.addr
    }

    /// The address is below the kernel half.
    pub closed spec fn wf(self) -> bool {
        self.addr < USER_END
    }

    /// A pointer to `addr`; an address in the kernel half is refused.
    pub fn try_from_usize(addr: usize) -> (result: Result<Self, Errno>)
        ensures
            addr < USER_END ==> result is Ok && result->Ok_0.wf() && result->Ok_0.spec_addr()
                == addr,
            addr >= USER_END ==> result == Err::<UserspacePtr, Errno>(Errno::EINVAL),
    {
        if addr as u64 >= USER_END {
            return Err(Errno::EINVAL);
        }
        Ok(UserspacePtr { addr })
    }

    pub fn addr(&self) -> (addr: usize)
        ensures
            addr == self.spec_addr(),
    {
        self.addr
    }

    /// Null is a user address, for hints.
    pub fn is_null(&self) -> (null: bool)
        ensures
            null == (self.spec_addr() == 0),
    {
        self.addr == 0
    }

    /// The `len` bytes from here on lie in user space.
    pub fn validate_range(&self, len: usize) -> (result: Result<(), Errno>)
        ensures
            self.spec_addr() + len <= USER_END ==> result is Ok,
            self.spec_addr() + len > USER_END ==> result == Err::<(), Errno>(Errno::EINVAL),
    {
        if self.addr as u64 > USER_END || len as u64 > USER_END - self.addr as u64 {
            return Err(Errno::EINVAL);
        }
        Ok(())
    }
}

/// Law: every user pointer that can be made lies below the kernel half.
pub proof fn law_user_pointers_stay_below_kernel(ptr: UserspacePtr)
    requires
        ptr.wf(),
    ensures
        ptr.spec_addr() < USER_END,
{
}

/// Law: the error numbers that user programs see.
pub proof fn law_errno_numbers(errno: Errno)
    ensures
        errno_code(errno) == match errno {
            Errno::ENOENT => 2i32,
            Errno::EIO => 5,
            Errno::EBADF => 9,
            Errno::ENOMEM => 12,
            Errno::EACCES => 13,
            Errno::EFAULT => 14,
            Errno::EEXIST => 17,
            Errno::ENOTDIR => 20,
            Errno::EISDIR => 21,
            Errno::EINVAL => 22,
            Errno::EMFILE => 24,
            Errno::ESPIPE => 29,
            Errno::EPIPE => 32,
            Errno::ERANGE => 34,
            Errno::ENAMETOOLONG => 36,
            Errno::ENOTEMPTY => 39,
            Errno::EOVERFLOW => 75,
            Errno::EOPNOTSUPP => 95,
        },
        USER_END == 0x8000_0000_0000,
        USER_END_AARCH64 == 0x1_0000_0000_0000,
        PATH_MAX == 4096,
        UIO_MAXIOV == 1024,
{
}

/// Law: the right to read, write and execute is bit 0, 1 and 2 of the word; a mapping is
/// private, fixed and anonymous by bits 1, 4 and 5.
pub proof fn law_flag_words(prot: ProtFlags, map: MapFlags)
    ensures
        prot.read <==> prot.spec_bits() % 2 == 1,
        prot.write <==> prot.spec_bits() / 2 % 2 == 1,
        prot.execute <==> prot.spec_bits() / 4 == 1,
        map.private <==> map.spec_bits() / 2 % 2 == 1,
        map.fixed <==> map.spec_bits() / 16 % 2 == 1,
        map.anonymous <==> map.spec_bits() / 32 == 1,
        map.spec_bits() % 2 == 0 && map.spec_bits() / 4 % 4 == 0 && map.spec_bits() < 64,
        prot.none() <==> prot.spec_bits() == 0,
{
}

} // verus!
