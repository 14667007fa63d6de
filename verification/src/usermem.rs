//! Access of the kernel to user memory.
//!
//! Every access checks the whole range against the page tables, with the right
//! that its direction needs, before it copies anything. A failure is a
//! [`UserMemError`] and leaves both sides as they were.

use std::collections::BTreeMap;

use vstd::prelude::*;

use crate::abi::{Errno, USER_END};
use crate::vmem::addr::VirtAddr;

verus! {

/// The right that an access needs.
#[derive(Copy, Clone, Debug, PartialEq, Eq, Structural)]
pub enum UserMemPerm {
    /// The kernel reads.
    Read,
    /// The kernel writes.
    Write,
}

/// Why an access failed.
#[derive(Debug, PartialEq, Eq, Structural)]
pub enum UserMemError {
    /// Nothing is mapped at this address.
    Unmapped(VirtAddr),
    /// The page there lacks this right.
    PermissionDenied(VirtAddr, UserMemPerm),
    /// The range from here, of this length, leaves user space.
    BadRange(VirtAddr, usize),
    /// Null pointer.
    Null,
    /// The string from here is longer than a buffer of this size holds.
    Truncated(VirtAddr, usize),
    /// This length is over this limit.
    TooLong(usize, usize),
}

impl vstd::std_specs::convert::FromSpecImpl<UserMemError> for Errno {
    open spec fn obeys_from_spec() -> bool {
        true
    }

    open spec fn from_spec(error: UserMemError) -> Errno {
        Errno::EFAULT
    }
}

impl From<UserMemError> for Errno {
    fn from(error: UserMemError) -> Errno {
        Errno::EFAULT
    }
}

pub type UserMemResult<T> = Result<T, UserMemError>;

/// Largest single copy.
pub const MAX_USER_COPY: usize = 65536;

/// Rights of a page.
#[derive(Copy, Clone, Debug, PartialEq, Eq, Structural)]
pub struct MockPageEntry {
    pub readable: bool,
    pub writable: bool,
}

/// A page has a right.
pub open spec fn grants(entry: MockPageEntry, perm: UserMemPerm) -> bool {
    match perm {
        UserMemPerm::Read => entry.readable,
        UserMemPerm::Write => entry.writable,
    }
}

/// First address of the page of `addr`.
pub open spec fn page_base(addr: int) -> int {
    addr - addr % 4096
}

/// User memory as a value: the rights of each mapped page, by its first
/// address, and the byte at each address.
#[verifier::ext_equal]
pub struct MemoryModel {
    pub pages: Map<u64, MockPageEntry>,
    pub bytes: spec_fn(int) -> u8,
    /// First address above user space.
    pub user_end: u64,
}

impl MemoryModel {
    pub open spec fn mapped(self, addr: int) -> bool {
        0 <= addr <= u64::MAX && self.pages.contains_key(page_base(addr) as u64)
    }

    pub open spec fn allows(self, addr: int, perm: UserMemPerm) -> bool {
        self.mapped(addr) && grants(self.pages[page_base(addr) as u64], perm)
    }

    /// The error that an access to one address gives.
    pub open spec fn fault_at(self, addr: int, perm: UserMemPerm) -> UserMemError {
        if self.mapped(addr) {
            UserMemError::PermissionDenied(VirtAddr(addr as u64), perm)
        } else {
            UserMemError::Unmapped(VirtAddr(addr as u64))
        }
    }

    /// Every address of the range grants the right.
    pub open spec fn allows_range(self, addr: int, len: int, perm: UserMemPerm) -> bool {
        forall|a: int| addr <= a < addr + len ==> #[trigger] self.allows(a, perm)
    }

    /// `a` is the first address of the range without the right.
    pub open spec fn first_fault(self, addr: int, len: int, perm: UserMemPerm, a: int) -> bool {
        &&& addr <= a < addr + len
        &&& !self.allows(a, perm)
        &&& self.allows_range(addr, a - addr, perm)
    }

    /// What the check of a range returns: the shape first, then the pages.
    pub open spec fn range_checked(
        self,
        addr: VirtAddr,
        len: usize,
        perm: UserMemPerm,
        result: UserMemResult<()>,
    ) -> bool {
        if addr.0 == 0 {
            result == Err::<(), UserMemError>(UserMemError::Null)
        } else if len > MAX_USER_COPY {
            result == Err::<(), UserMemError>(UserMemError::TooLong(len, MAX_USER_COPY))
        } else if len > 0 && addr.0 + len > self.user_end {
            result == Err::<(), UserMemError>(UserMemError::BadRange(addr, len))
        } else if self.allows_range(addr.0 as int, len as int, perm) {
            result == Ok::<(), UserMemError>(())
        } else {
            exists|a: int| #[trigger]
                self.first_fault(addr.0 as int, len as int, perm, a) && result == Err::<
                    (),
                    UserMemError,
                >(self.fault_at(a, perm))
        }
    }

    /// The memory with `src` written at `addr`.
    pub open spec fn written(self, addr: int, src: Seq<u8>) -> MemoryModel {
        MemoryModel {
            bytes: |a: int|
                if addr <= a < addr + src.len() {
                    src[a - addr]
                } else {
                    (self.bytes)(a)
                },
            ..self
        }
    }

    /// The `len` bytes at `addr`.
    pub open spec fn slice(self, addr: int, len: nat) -> Seq<u8> {
        Seq::new(len, |i: int| (self.bytes)(addr + i))
    }

    /// Reading a string goes on past index `i`: a readable, non-zero byte.
    pub open spec fn string_goes_on(self, addr: int, i: int) -> bool {
        self.allows(addr + i, UserMemPerm::Read) && (self.bytes)(addr + i) != 0
    }

    /// Reading a string at `addr` into `capacity` bytes stops at index `stop`.
    pub open spec fn string_stops(self, addr: int, capacity: int, stop: int) -> bool {
        &&& 0 <= stop <= capacity
        &&& forall|i: int| 0 <= i < stop ==> #[trigger] self.string_goes_on(addr, i)
        &&& stop < capacity ==> !self.string_goes_on(addr, stop)
    }

    /// A string never runs past the last address there is.
    pub open spec fn string_bounded(self, addr: int, capacity: int) -> bool {
        forall|stop: int| #[trigger]
            self.string_stops(addr, capacity, stop) ==> addr + stop <= u64::MAX
    }
}

/// What every accessor of user memory promises.
pub trait UserMemory {
    /// The memory.
    spec fn model(&self) -> MemoryModel;

    spec fn wf(&self) -> bool;

    /// Read `dst.len()` bytes at `src_addr`. The buffer stays as it was if any
    /// byte of the range cannot be read.
    fn copy_from_user(&mut self, dst: &mut [u8], src_addr: VirtAddr) -> (result: UserMemResult<()>)
        requires
            old(self).wf(),
        ensures
            final(self).wf(),
            final(self).model() == old(self).model(),
            old(self).model().range_checked(
                src_addr,
                old(dst)@.len() as usize,
                UserMemPerm::Read,
                result,
            ),
            result is Ok ==> final(dst)@ == old(self).model().slice(
                src_addr.0 as int,
                old(dst)@.len(),
            ),
            result is Err ==> final(dst)@ == old(dst)@,
    ;

    /// Write `src` at `dst_addr`. The memory stays as it was if any byte of the
    /// range cannot be written.
    fn copy_to_user(&mut self, dst_addr: VirtAddr, src: &[u8]) -> (result: UserMemResult<()>)
        requires
            old(self).wf(),
        ensures
            final(self).wf(),
            old(self).model().range_checked(
                dst_addr,
                src@.len() as usize,
                UserMemPerm::Write,
                result,
            ),
            result is Ok ==> final(self).model() == old(self).model().written(
                dst_addr.0 as int,
                src@,
            ),
            result is Err ==> final(self).model() == old(self).model(),
    ;

    /// Read a string with its terminating zero, and return its length without
    /// it. Bytes behind the zero are not looked at. On an error the buffer holds
    /// what was read until then.
    fn copy_cstr_from_user(&mut self, dst: &mut [u8], src_addr: VirtAddr) -> (result: UserMemResult<
        usize,
    >)
        requires
            old(self).wf(),
            old(self).model().string_bounded(src_addr.0 as int, old(dst)@.len() as int),
        ensures
            final(self).wf(),
            final(self).model() == old(self).model(),
            ({
                let memory = old(self).model();
                let before = old(dst)@;
                let addr = src_addr.0 as int;
                if addr == 0 {
                    &&& result == Err::<usize, UserMemError>(UserMemError::Null)
                    &&& final(dst)@ == before
                } else {
                    exists|stop: int| #[trigger]
                        memory.string_stops(addr, before.len() as int, stop) && {
                            let read = memory.slice(addr, stop as nat) + before.subrange(
                                stop,
                                before.len() as int,
                            );
                            if stop == before.len() {
                                &&& result == Err::<usize, UserMemError>(
                                    UserMemError::Truncated(src_addr, before.len() as usize),
                                )
                                &&& final(dst)@ == read
                            } else if memory.allows(addr + stop, UserMemPerm::Read) {
                                &&& result == Ok::<usize, UserMemError>(stop as usize)
                                &&& final(dst)@ == read.update(stop, 0)
                            } else {
                                &&& result == Err::<usize, UserMemError>(
                                    memory.fault_at(addr + stop, UserMemPerm::Read),
                                )
                                &&& final(dst)@ == read
                            }
                        }
                }
            }),
    ;
}

/// User memory held in the kernel's own memory, page by page.
#[derive(Debug)]
pub struct MockUserMemory {
    pages: BTreeMap<u64, MockPageEntry>,
    backing: BTreeMap<u64, Vec<u8>>,
    user_end: u64,
}

fn page_of(addr: u64) -> (base: u64)
    ensures
        base == page_base(addr as int),
        base % 4096 == 0,
{
    addr - addr % 4096
}

impl MockUserMemory {
    closed spec fn inv(&self) -> bool {
        &&& self.pages@.dom() =~= self.backing@.dom()
        &&& forall|page: u64| #[trigger]
            self.backing@.contains_key(page) ==> self.backing@[page]@.len() == 4096
    }

    closed spec fn contents(&self) -> MemoryModel {
        MemoryModel {
            pages: self.pages@,
            bytes: |a: int|
                if 0 <= a <= u64::MAX && self.backing@.contains_key(page_base(a) as u64) {
                    self.backing@[page_base(a) as u64]@[a % 4096]
                } else {
                    0
                },
            user_end: self.user_end,
        }
    }

    /// No pages, with the usual end of user space.
    pub fn new() -> (memory: Self)
        ensures
            memory.wf(),
            memory.model().pages == Map::<u64, MockPageEntry>::empty(),
            memory.model().user_end == USER_END,
    {
        Self::with_user_end(USER_END)
    }

    /// No pages, with user space below `user_end`.
    pub fn with_user_end(user_end: u64) -> (memory: Self)
        ensures
            memory.wf(),
            memory.model().pages == Map::<u64, MockPageEntry>::empty(),
            memory.model().user_end == user_end,
    {
        MockUserMemory { pages: BTreeMap::new(), backing: BTreeMap::new(), user_end }
    }

    /// Map the page of `vaddr` with these rights. A page that was mapped before
    /// keeps its bytes; a new one holds zeros.
    pub fn map_page(&mut self, vaddr: VirtAddr, perms: MockPageEntry)
        requires
            old(self).wf(),
        ensures
            final(self).wf(),
            final(self).model().user_end == old(self).model().user_end,
            final(self).model().pages == old(self).model().pages.insert(
                page_base(vaddr.0 as int) as u64,
                perms,
            ),
            forall|a: int|
                #![trigger (final(self).model().bytes)(a)]
                (final(self).model().bytes)(a) == if page_base(a) == page_base(vaddr.0 as int)
                    && !old(self).model().mapped(vaddr.0 as int) {
                    0
                } else {
                    (old(self).model().bytes)(a)
                },
    {
        let page: u64 = page_of(vaddr.0);
        let ghost before = self.backing@;
        self.pages.insert(page, perms);
        if !self.backing.contains_key(&page) {
            let zeros: Vec<u8> = vec![0u8; 4096];
            self.backing.insert(page, zeros);
        }
    }

    /// Write `bytes` into the mapped page of `vaddr`, from `offset` on.
    pub fn seed_page(&mut self, vaddr: VirtAddr, offset: usize, bytes: &[u8])
        requires
            old(self).wf(),
            old(self).model().mapped(vaddr.0 as int),
            offset + bytes@.len() <= 4096,
        ensures
            final(self).wf(),
            final(self).model() == old(self).model().written(
                page_base(vaddr.0 as int) + offset,
                bytes@,
            ),
    {
        self.store(page_of(vaddr.0), offset, bytes);
    }

    /// Write `bytes` into one mapped page.
    fn store(&mut self, page: u64, offset: usize, bytes: &[u8])
        requires
            old(self).wf(),
            page % 4096 == 0,
            old(self).model().pages.contains_key(page),
            offset + bytes@.len() <= 4096,
        ensures
            final(self).wf(),
            final(self).model() == old(self).model().written(page + offset, bytes@),
    {
        let ghost before = *self;
        match self.backing.remove(&page) {
            Some(mut data) => {
                let ghost start = data@;
                let mut i: usize = 0;
                while i < bytes.len()
                    invariant
                        i <= bytes@.len(),
                        offset + bytes@.len() <= 4096,
                        start.len() == 4096,
                        data@.len() == 4096,
                        forall|k: int| 0 <= k < i ==> #[trigger] data@[offset + k] == bytes@[k],
                        forall|k: int|
                            0 <= k < 4096 && !(offset <= k < offset + i) ==> #[trigger] data@[k]
                                == start[k],
                    decreases bytes@.len() - i,
                {
                    data.set(offset + i, bytes[i]);
                    i = i + 1;
                }
                let ghost filled = data@;
                self.backing.insert(page, data);
                proof {
                    let want = before.contents().written(page + offset, bytes@);
                    let got = self.contents();
                    assert(self.backing@.dom() =~= before.backing@.dom());
                    assert forall|a: int| #[trigger] (got.bytes)(a) == (want.bytes)(a) by {
                        let base = page_base(a);
                        if 0 <= a <= u64::MAX && self.backing@.contains_key(base as u64) {
                            if base == page {
                                let k = a % 4096;
                                if offset <= k < offset + bytes@.len() {
                                    assert(filled[offset + (k - offset)] == bytes@[k - offset]);
                                }
                            }
                        }
                    }
                    assert(got.bytes =~= want.bytes);
                    assert(got.pages =~= want.pages);
                }
            },
            None => {
                assert(false);
            },
        }
    }

    /// Check a range: its shape first, then page by page.
    fn validate_range(&self, addr: VirtAddr, len: usize, permission: UserMemPerm) -> (result:
        UserMemResult<()>)
        requires
            self.wf(),
        ensures
            self.model().range_checked(addr, len, permission, result),
    {
        if addr.0 == 0 {
            return Err(UserMemError::Null);
        }
        if len > MAX_USER_COPY {
            return Err(UserMemError::TooLong(len, MAX_USER_COPY));
        }
        if len == 0 {
            return Ok(());
        }
        let start: u64 = addr.0;
        if start > self.user_end || len as u64 > self.user_end - start {
            return Err(UserMemError::BadRange(addr, len));
        }
        let end: u64 = start + len as u64;
        let ghost memory = self.model();
        let mut current: u64 = start;
        while current < end
            invariant
                self.wf(),
                memory == self.model(),
                start == addr.0,
                start != 0,
                0 < len <= MAX_USER_COPY,
                end == start + len,
                end <= memory.user_end,
                start <= current <= end,
                memory.allows_range(start as int, current - start, permission),
            decreases end - current,
        {
            let page: u64 = page_of(current);
            let allowed = match self.pages.get(&page) {
                Some(perms) => match permission {
                    UserMemPerm::Read => perms.readable,
                    UserMemPerm::Write => perms.writable,
                },
                None => {
                    assert(memory.first_fault(
                        start as int,
                        len as int,
                        permission,
                        current as int,
                    ));
                    return Err(UserMemError::Unmapped(VirtAddr(current)));
                },
            };
            if !allowed {
                assert(memory.first_fault(start as int, len as int, permission, current as int));
                return Err(UserMemError::PermissionDenied(VirtAddr(current), permission));
            }
            let ghost checked = current;
            let in_page: u64 = 4096 - current % 4096;
            current = if end - current < in_page {
                end
            } else {
                current + in_page
            };
            proof {
                assert forall|a: int| start <= a < current implies #[trigger] memory.allows(
                    a,
                    permission,
                ) by {
                    if a >= checked {
                        assert(page_base(a) == page);
                        assert(memory.allows(checked as int, permission));
                    }
                }
            }
        }
        Ok(())
    }

    fn byte(&self, addr: u64) -> (byte: u8)
        requires
            self.wf(),
            self.model().mapped(addr as int),
        ensures
            byte == (self.model().bytes)(addr as int),
    {
        match self.backing.get(&page_of(addr)) {
            Some(data) => data[(addr % 4096) as usize],
            None => {
                assert(false);
                0
            },
        }
    }
}

impl Default for MockUserMemory {
    fn default() -> (memory: Self)
        ensures
            memory.wf(),
            memory.model().pages == Map::<u64, MockPageEntry>::empty(),
            memory.model().user_end == USER_END,
    {
        Self::new()
    }
}

impl UserMemory for MockUserMemory {
    closed spec fn model(&self) -> MemoryModel {
        self.contents()
    }

    closed spec fn wf(&self) -> bool {
        self.inv()
    }

    fn copy_from_user(&mut self, dst: &mut [u8], src_addr: VirtAddr) -> (result: UserMemResult<
        (),
    >) {
        match self.validate_range(src_addr, dst.len(), UserMemPerm::Read) {
            Ok(()) => {},
            Err(error) => {
                return Err(error);
            },
        }
        let ghost before = dst@;
        let ghost memory = self.model();
        let addr: u64 = src_addr.0;
        let len: usize = dst.len();
        let mut copied: usize = 0;
        while copied < len
            invariant
                *self == *old(self),
                self.wf(),
                memory == self.model(),
                dst@.len() == len,
                addr == src_addr.0,
                copied <= len,
                len > 0 ==> addr + len <= u64::MAX,
                memory.allows_range(addr as int, len as int, UserMemPerm::Read),
                forall|k: int| 0 <= k < copied ==> #[trigger] dst@[k] == (memory.bytes)(addr + k),
            decreases len - copied,
        {
            assert(memory.allows(addr + copied, UserMemPerm::Read));
            dst[copied] = self.byte(addr + copied as u64);
            copied = copied + 1;
        }
        assert(dst@ =~= memory.slice(addr as int, before.len()));
        Ok(())
    }

    fn copy_to_user(&mut self, dst_addr: VirtAddr, src: &[u8]) -> (result: UserMemResult<()>) {
        match self.validate_range(dst_addr, src.len(), UserMemPerm::Write) {
            Ok(()) => {},
            Err(error) => {
                return Err(error);
            },
        }
        let ghost memory = self.model();
        let addr: u64 = dst_addr.0;
        let len: usize = src.len();
        let mut copied: usize = 0;
        proof {
            assert(memory.bytes =~= memory.written(
                addr as int,
                src@.subrange(0, 0),
            ).bytes);
        }
        while copied < len
            invariant
                self.wf(),
                src@.len() == len,
                addr == dst_addr.0,
                copied <= len,
                len > 0 ==> addr + len <= u64::MAX,
                memory.allows_range(addr as int, len as int, UserMemPerm::Write),
                self.model() == memory.written(addr as int, src@.subrange(0, copied as int)),
            decreases len - copied,
        {
            let cur: u64 = addr + copied as u64;
            let page: u64 = page_of(cur);
            let off: usize = (cur % 4096) as usize;
            assert(memory.allows(cur as int, UserMemPerm::Write));
            let in_page: usize = 4096 - off;
            let left: usize = len - copied;
            let chunk: usize = if in_page < left {
                in_page
            } else {
                left
            };
            let part = vstd::slice::slice_subrange(src, copied, copied + chunk);
            let ghost was = self.model();
            self.store(page, off, part);
            proof {
                let want = memory.written(addr as int, src@.subrange(0, copied + chunk));
                assert(self.model().bytes =~= want.bytes);
                assert(self.model() =~= want);
            }
            copied = copied + chunk;
        }
        assert(src@.subrange(0, len as int) =~= src@);
        Ok(())
    }

    fn copy_cstr_from_user(&mut self, dst: &mut [u8], src_addr: VirtAddr) -> (result: UserMemResult<
        usize,
    >) {
        if src_addr.0 == 0 {
            return Err(UserMemError::Null);
        }
        let ghost before = dst@;
        let ghost memory = self.model();
        let addr: u64 = src_addr.0;
        let size: usize = dst.len();
        let mut written: usize = 0;
        while written < size
            invariant
                *self == *old(self),
                self.wf(),
                memory == self.model(),
                addr == src_addr.0,
                addr != 0,
                dst@.len() == size,
                before.len() == size,
                before == old(dst)@,
                written <= size,
                memory.string_bounded(addr as int, size as int),
                forall|i: int| 0 <= i < written ==> #[trigger] memory.string_goes_on(addr as int, i),
                dst@ =~= memory.slice(addr as int, written as nat) + before.subrange(
                    written as int,
                    size as int,
                ),
            decreases size - written,
        {
            proof {
                if !memory.string_goes_on(addr as int, written as int) {
                    assert(memory.string_stops(addr as int, size as int, written as int));
                } else {
                    assert(memory.allows(addr + written, UserMemPerm::Read));
                }
            }
            let cur: u64 = addr + written as u64;
            let page: u64 = page_of(cur);
            let readable = match self.pages.get(&page) {
                Some(perms) => perms.readable,
                None => {
                    return Err(UserMemError::Unmapped(VirtAddr(cur)));
                },
            };
            if !readable {
                return Err(UserMemError::PermissionDenied(VirtAddr(cur), UserMemPerm::Read));
            }
            let byte: u8 = self.byte(cur);
            dst[written] = byte;
            if byte == 0 {
                return Ok(written);
            }
            written = written + 1;
        }
        assert(memory.string_stops(addr as int, size as int, size as int));
        Err(UserMemError::Truncated(src_addr, size))
    }
}

/// Law: what was written is read back.
pub proof fn law_write_then_read(memory: MemoryModel, addr: int, src: Seq<u8>)
    ensures
        memory.written(addr, src).slice(addr, src.len()) == src,
{
    assert(memory.written(addr, src).slice(addr, src.len()) =~= src);
}

/// Law: a write changes no byte outside its range, and no rights.
pub proof fn law_write_is_local(memory: MemoryModel, addr: int, src: Seq<u8>, other: int)
    requires
        !(addr <= other < addr + src.len()),
    ensures
        (memory.written(addr, src).bytes)(other) == (memory.bytes)(other),
        memory.written(addr, src).pages == memory.pages,
{
}

/// Law: an access never reaches above user space or the null pointer.
pub proof fn law_access_stays_in_user_space(
    memory: MemoryModel,
    addr: VirtAddr,
    len: usize,
    perm: UserMemPerm,
)
    requires
        memory.range_checked(addr, len, perm, Ok::<(), UserMemError>(())),
    ensures
        addr.0 != 0,
        len <= MAX_USER_COPY,
        len > 0 ==> addr.0 + len <= memory.user_end,
{
}

/// Law: an access is granted exactly if the pointer is not null, at most 65536 bytes are
/// asked for, the range ends within user space, and every byte of it lies on a mapped page
/// with the right: to be read for reading, to be written for writing.
pub proof fn law_what_access_is_granted(
    memory: MemoryModel,
    addr: VirtAddr,
    len: usize,
    perm: UserMemPerm,
    result: UserMemResult<()>,
)
    requires
        memory.range_checked(addr, len, perm, result),
    ensures
        ({
            let inside = len == 0 || addr.0 + len <= memory.user_end;
            let granted = forall|a: int|
                addr.0 <= a < addr.0 + len ==> #[trigger] memory.allows(a, perm);
            &&& result is Ok <==> addr.0 != 0 && len <= 65536 && inside && granted
            &&& result == Err::<(), UserMemError>(UserMemError::Null) <==> addr.0 == 0
            &&& result == Err::<(), UserMemError>(UserMemError::TooLong(len, 65536)) <==> addr.0
                != 0 && len > 65536
            &&& result == Err::<(), UserMemError>(UserMemError::BadRange(addr, len)) <==> addr.0
                != 0 && len <= 65536 && !inside
        }),
{
}

/// Law: an address may be read exactly if the page of 4096 bytes that holds it is mapped and
/// readable, and written exactly if it is mapped and writable. A page that is not mapped is
/// reported as that, any other refusal as a lack of the right.
pub proof fn law_rights_of_a_page(memory: MemoryModel, addr: u64, perm: UserMemPerm)
    ensures
        ({
            let page = (addr as int / 4096 * 4096) as u64;
            let there = memory.pages.contains_key(page);
            &&& memory.allows(addr as int, UserMemPerm::Read) <==> there
                && memory.pages[page].readable
            &&& memory.allows(addr as int, UserMemPerm::Write) <==> there
                && memory.pages[page].writable
            &&& memory.fault_at(addr as int, perm) == if there {
                UserMemError::PermissionDenied(VirtAddr(addr), perm)
            } else {
                UserMemError::Unmapped(VirtAddr(addr))
            }
        }),
{
}

/// Law: a string is read up to its first zero byte, or to the first byte that cannot be read.
pub proof fn law_string_ends_at_zero(memory: MemoryModel, addr: int, capacity: int, stop: int)
    requires
        memory.string_stops(addr, capacity, stop),
    ensures
        forall|i: int|
            0 <= i < stop ==> #[trigger] (memory.bytes)(addr + i) != 0 && memory.allows(
                addr + i,
                UserMemPerm::Read,
            ),
        stop < capacity && memory.allows(addr + stop, UserMemPerm::Read) ==> (memory.bytes)(
            addr + stop,
        ) == 0,
{
    assert forall|i: int| 0 <= i < stop implies #[trigger] (memory.bytes)(addr + i) != 0
        && memory.allows(addr + i, UserMemPerm::Read) by {
        assert(memory.string_goes_on(addr, i));
    }
}

} // verus!
