//! File descriptors, directories and the working directory.

use vstd::prelude::*;
use vstd::utf8::{decode_utf8, valid_utf8};

use crate::abi::{Errno, PATH_MAX, UIO_MAXIOV};
use crate::bytes::text_from_utf8;
use crate::syscall::access::{
    errno_outcome, file_errno, to_errno, CwdAccess, FileAccess, FileAccessError,
};
use crate::vfs::path::{is_absolute_text, joined, AbsoluteOwnedPath, OwnedPath};

verus! {

/// Count from the start of the file.
pub const SEEK_SET: i32 = 0;

/// Count from the current position.
pub const SEEK_CUR: i32 = 1;

/// Count from the end of the file.
pub const SEEK_END: i32 = 2;

/// Zero-terminated text at the front of a buffer.
pub open spec fn terminated_front(buf: Seq<u8>, text: Seq<u8>) -> Seq<u8> {
    text + seq![0u8] + buf.subrange(text.len() as int + 1, buf.len() as int)
}

/// Write a directory's path, zero-terminated, into `buf`, and return the bytes
/// used. `ERANGE`, with the buffer as it was, if they do not fit.
pub fn write_cwd(cwd: &AbsoluteOwnedPath, buf: &mut [u8]) -> (result: Result<usize, Errno>)
    ensures
        ({
            let text = vstd::utf8::encode_utf8(cwd@);
            if old(buf)@.len() <= text.len() {
                &&& result == Err::<usize, Errno>(Errno::ERANGE)
                &&& final(buf)@ == old(buf)@
            } else {
                &&& result == Ok::<usize, Errno>((text.len() + 1) as usize)
                &&& final(buf)@ == terminated_front(old(buf)@, text)
            }
        }),
{
    let text = cwd.as_str().as_bytes();
    let len: usize = text.len();
    if buf.len() <= len {
        return Err(Errno::ERANGE);
    }
    let ghost before = buf@;
    let mut i: usize = 0;
    while i < len
        invariant
            i <= len,
            len == text@.len(),
            buf@.len() == before.len(),
            len < before.len(),
            forall|k: int| 0 <= k < i ==> #[trigger] buf@[k] == text@[k],
            forall|k: int| i <= k < before.len() ==> #[trigger] buf@[k] == before[k],
        decreases len - i,
    {
        buf[i] = text[i];
        i = i + 1;
    }
    buf[len] = 0;
    assert(buf@ =~= terminated_front(before, text@));
    Ok(len + 1)
}

/// Write the working directory into `buf`. An empty buffer is refused without
/// asking the context.
pub fn sys_getcwd<Cx: CwdAccess>(cx: &Cx, buf: &mut [u8]) -> (result: Result<usize, Errno>)
    ensures
        old(buf)@.len() == 0 ==> result == Err::<usize, Errno>(Errno::EINVAL) && final(buf)@
            == old(buf)@,
        old(buf)@.len() > 0 ==> exists|cwd: AbsoluteOwnedPath|
            {
                let text = vstd::utf8::encode_utf8(cwd@);
                &&& #[trigger] call_ensures(Cx::current_working_directory, (cx,), cwd)
                &&& if old(buf)@.len() <= text.len() {
                    &&& result == Err::<usize, Errno>(Errno::ERANGE)
                    &&& final(buf)@ == old(buf)@
                } else {
                    &&& result == Ok::<usize, Errno>((text.len() + 1) as usize)
                    &&& final(buf)@ == terminated_front(old(buf)@, text)
                }
            },
{
    if buf.len() == 0 {
        return Err(Errno::EINVAL);
    }
    let cwd = cx.current_working_directory();
    assert(call_ensures(Cx::current_working_directory, (cx,), cwd));
    write_cwd(&cwd, buf)
}

pub fn sys_read<Cx: FileAccess>(cx: &Cx, fildes: Cx::Fd, buf: &mut [u8]) -> (result: Result<
    usize,
    Errno,
>)
    ensures
        exists|target: &mut [u8], outcome: Result<usize, FileAccessError>|
            {
                &&& #[trigger] call_ensures(Cx::read, (cx, fildes, target), outcome)
                &&& target@ == old(buf)@
                &&& final(target)@ == final(buf)@
                &&& result == errno_outcome(outcome)
            },
{
    to_errno(cx.read(fildes, buf))
}

pub fn sys_write<Cx: FileAccess>(cx: &Cx, fildes: Cx::Fd, buf: &[u8]) -> (result: Result<usize, Errno>)
    ensures
        exists|outcome: Result<usize, FileAccessError>| #[trigger]
            call_ensures(Cx::write, (cx, fildes, buf), outcome) && result == errno_outcome(outcome),
{
    let outcome = cx.write(fildes, buf);
    assert(call_ensures(Cx::write, (cx, fildes, buf), outcome));
    to_errno(outcome)
}

/// The buffers that hold something, in order.
pub open spec fn filled(buffers: Seq<&[u8]>) -> Seq<&[u8]>
    decreases buffers.len(),
{
    if buffers.len() == 0 {
        Seq::empty()
    } else if buffers[0]@.len() == 0 {
        filled(buffers.drop_first())
    } else {
        seq![buffers[0]] + filled(buffers.drop_first())
    }
}

/// The result of a gathered write whose single writes, in order, came out as
/// `outcomes`, with `total` bytes written before. Empty buffers are passed over.
/// The first error, the first short write and the end of the buffers each end
/// it. `None` if it does not end with the last of the outcomes.
pub open spec fn gathered(
    buffers: Seq<&[u8]>,
    outcomes: Seq<Result<usize, FileAccessError>>,
    total: usize,
) -> Option<Result<usize, Errno>>
    decreases buffers.len(),
{
    if buffers.len() == 0 {
        if outcomes.len() == 0 {
            Some(Ok(total))
        } else {
            None
        }
    } else if buffers[0]@.len() == 0 {
        gathered(buffers.drop_first(), outcomes, total)
    } else if outcomes.len() == 0 {
        None
    } else {
        match outcomes[0] {
            Err(error) => if outcomes.len() == 1 {
                Some(Err(file_errno(error)))
            } else {
                None
            },
            Ok(written) => if total + written > usize::MAX {
                if outcomes.len() == 1 {
                    Some(Err(Errno::EINVAL))
                } else {
                    None
                }
            } else if written < buffers[0]@.len() {
                if outcomes.len() == 1 {
                    Some(Ok((total + written) as usize))
                } else {
                    None
                }
            } else {
                gathered(
                    buffers.drop_first(),
                    outcomes.drop_first(),
                    (total + written) as usize,
                )
            },
        }
    }
}

proof fn lemma_filled_push(buffers: Seq<&[u8]>, last: &[u8])
    ensures
        filled(buffers.push(last)) == if last@.len() == 0 {
            filled(buffers)
        } else {
            filled(buffers).push(last)
        },
    decreases buffers.len(),
{
    let all = buffers.push(last);
    if buffers.len() == 0 {
        let none = Seq::<&[u8]>::empty();
        assert(all.drop_first() =~= none);
        assert(filled(none) =~= none);
        assert(buffers =~= none);
        assert(all[0] == last);
        assert(seq![last] + none =~= none.push(last));
    } else {
        assert(all.drop_first() =~= buffers.drop_first().push(last));
        lemma_filled_push(buffers.drop_first(), last);
        if buffers[0]@.len() > 0 && last@.len() > 0 {
            assert(seq![buffers[0]] + filled(buffers.drop_first()).push(last) =~= (seq![
                buffers[0],
            ] + filled(buffers.drop_first())).push(last));
        }
    }
}

proof fn lemma_filled_prefix(buffers: Seq<&[u8]>, count: int)
    requires
        0 <= count <= buffers.len(),
    ensures
        filled(buffers.subrange(0, count)).len() <= filled(buffers).len(),
        forall|k: int|
            0 <= k < filled(buffers.subrange(0, count)).len() ==> filled(buffers)[k]
                == #[trigger] filled(buffers.subrange(0, count))[k],
    decreases buffers.len() - count,
{
    if count == buffers.len() {
        assert(buffers.subrange(0, count) =~= buffers);
    } else {
        lemma_filled_prefix(buffers, count + 1);
        assert(buffers.subrange(0, count + 1) =~= buffers.subrange(0, count).push(buffers[count]));
        lemma_filled_push(buffers.subrange(0, count), buffers[count]);
        let shorter = filled(buffers.subrange(0, count));
        let longer = filled(buffers.subrange(0, count + 1));
        assert forall|k: int| 0 <= k < shorter.len() implies filled(buffers)[k]
            == #[trigger] shorter[k] by {
            assert(longer[k] == shorter[k]);
        }
    }
}

/// This is how a write to the descriptor with a number came out.
pub open spec fn written_as<Cx: FileAccess>(
    cx: &Cx,
    number: i32,
    buffer: &[u8],
    outcome: Result<usize, FileAccessError>,
) -> bool {
    exists|fd: Cx::Fd|
        {
            &&& call_ensures(<Cx::Fd as From<i32>>::from, (number,), fd)
            &&& #[trigger] call_ensures(Cx::write, (cx, fd, buffer), outcome)
        }
}

/// Write several buffers one after the other, until one is not written
/// completely. Too many buffers are refused without asking the context.
pub fn sys_writev<Cx: FileAccess>(cx: &Cx, fildes: Cx::Fd, buffers: &[&[u8]]) -> (result: Result<
    usize,
    Errno,
>)
    ensures
        buffers@.len() > UIO_MAXIOV ==> result == Err::<usize, Errno>(Errno::EINVAL),
        buffers@.len() <= UIO_MAXIOV ==> exists|
            number: i32,
            outcomes: Seq<Result<usize, FileAccessError>>,
        |
            {
                &&& #[trigger] call_ensures(<Cx::Fd as Into<i32>>::into, (fildes,), number)
                &&& #[trigger] gathered(buffers@, outcomes, 0) == Some(result)
                &&& outcomes.len() <= filled(buffers@).len()
                &&& forall|k: int|
                    0 <= k < outcomes.len() ==> written_as(
                        cx,
                        number,
                        filled(buffers@)[k],
                        #[trigger] outcomes[k],
                    )
            },
{
    if buffers.len() > UIO_MAXIOV {
        return Err(Errno::EINVAL);
    }
    let number: i32 = fildes.into();
    assert(call_ensures(<Cx::Fd as Into<i32>>::into, (fildes,), number));
    let ghost mut outcomes: Seq<Result<usize, FileAccessError>> = Seq::empty();
    let mut total: usize = 0;
    let mut i: usize = 0;
    proof {
        assert(buffers@.subrange(0, 0) =~= Seq::empty());
        assert(buffers@.subrange(0, buffers@.len() as int) =~= buffers@);
        assert forall|tail: Seq<Result<usize, FileAccessError>>| #[trigger]
            gathered(buffers@, outcomes + tail, 0) == gathered(
                buffers@.subrange(0, buffers@.len() as int),
                tail,
                0,
            ) by {
            assert(outcomes + tail =~= tail);
        }
    }
    while i < buffers.len()
        invariant
            i <= buffers@.len(),
            buffers@.len() <= UIO_MAXIOV,
            call_ensures(<Cx::Fd as Into<i32>>::into, (fildes,), number),
            filled(buffers@.subrange(0, i as int)).len() == outcomes.len(),
            forall|k: int|
                0 <= k < outcomes.len() ==> written_as(
                    cx,
                    number,
                    filled(buffers@.subrange(0, i as int))[k],
                    #[trigger] outcomes[k],
                ),
            forall|tail: Seq<Result<usize, FileAccessError>>| #[trigger]
                gathered(buffers@, outcomes + tail, 0) == gathered(
                    buffers@.subrange(i as int, buffers@.len() as int),
                    tail,
                    total,
                ),
        decreases buffers@.len() - i,
    {
        let buffer = buffers[i];
        let ghost done = buffers@.subrange(0, i as int);
        let ghost rest = buffers@.subrange(i as int, buffers@.len() as int);
        let ghost before = outcomes;
        let ghost total_before = total;
        proof {
            assert(buffers@.subrange(0, i + 1) =~= done.push(buffer));
            lemma_filled_push(done, buffer);
            lemma_filled_prefix(buffers@, i + 1);
            assert(rest[0] == buffer);
            assert(rest.drop_first() =~= buffers@.subrange(i + 1, buffers@.len() as int));
        }
        if buffer.len() > 0 {
            let fd = <Cx::Fd as From<i32>>::from(number);
            let outcome = cx.write(fd, buffer);
            assert(call_ensures(Cx::write, (cx, fd, buffer), outcome));
            assert(written_as(cx, number, buffer, outcome));
            proof {
                outcomes = before.push(outcome);
                assert forall|tail: Seq<Result<usize, FileAccessError>>| #[trigger]
                    gathered(buffers@, outcomes + tail, 0) == gathered(
                        rest,
                        seq![outcome] + tail,
                        total_before,
                    ) by {
                    assert(outcomes + tail =~= before + (seq![outcome] + tail));
                }
                assert forall|k: int| 0 <= k < outcomes.len() implies written_as(
                    cx,
                    number,
                    filled(buffers@.subrange(0, i + 1))[k],
                    #[trigger] outcomes[k],
                ) by {
                    if k < before.len() {
                        assert(outcomes[k] == before[k]);
                        assert(filled(done)[k] == filled(buffers@.subrange(0, i + 1))[k]);
                    }
                }
                let none = Seq::<Result<usize, FileAccessError>>::empty();
                assert(outcomes + none =~= outcomes);
                assert(seq![outcome] + none =~= seq![outcome]);
                assert(gathered(buffers@, outcomes + none, 0) == gathered(
                    rest,
                    seq![outcome] + none,
                    total_before,
                ));
                assert forall|k: int| 0 <= k < outcomes.len() implies written_as(
                    cx,
                    number,
                    filled(buffers@)[k],
                    #[trigger] outcomes[k],
                ) by {
                    assert(filled(buffers@)[k] == filled(buffers@.subrange(0, i + 1))[k]);
                }
            }
            let written: usize = match outcome {
                Ok(written) => written,
                Err(error) => {
                    return Err(error.errno());
                },
            };
            total = match total.checked_add(written) {
                Some(sum) => sum,
                None => {
                    return Err(Errno::EINVAL);
                },
            };
            if written < buffer.len() {
                return Ok(total);
            }
            proof {
                assert forall|tail: Seq<Result<usize, FileAccessError>>| #[trigger]
                    gathered(buffers@, outcomes + tail, 0) == gathered(
                        buffers@.subrange(i + 1, buffers@.len() as int),
                        tail,
                        total,
                    ) by {
                    assert((seq![outcome] + tail).drop_first() =~= tail);
                }
            }
        }
        i = i + 1;
    }
    proof {
        let none = Seq::<Result<usize, FileAccessError>>::empty();
        assert(outcomes + none =~= outcomes);
        assert(buffers@.subrange(0, i as int) =~= buffers@);
        assert(gathered(buffers@, outcomes + none, 0) == gathered(
            buffers@.subrange(i as int, buffers@.len() as int),
            none,
            total,
        ));
    }
    Ok(total)
}

/// The zero of a call that only succeeds or fails.
pub open spec fn zero_outcome(outcome: Result<(), FileAccessError>) -> Result<usize, Errno> {
    match outcome {
        Ok(()) => Ok(0),
        Err(error) => Err(file_errno(error)),
    }
}

/// Turn success into zero and an error into its number.
pub fn zero_result(outcome: Result<(), FileAccessError>) -> (result: Result<usize, Errno>)
    ensures
        result == zero_outcome(outcome),
{
    match outcome {
        Ok(()) => Ok(0),
        Err(error) => Err(error.errno()),
    }
}

/// Close a descriptor.
pub fn sys_close<Cx: FileAccess>(cx: &Cx, fildes: Cx::Fd) -> (result: Result<usize, Errno>)
    ensures
        exists|outcome: Result<(), FileAccessError>| #[trigger]
            call_ensures(Cx::close, (cx, fildes), outcome) && result == zero_outcome(outcome),
{
    let outcome = cx.close(fildes);
    assert(call_ensures(Cx::close, (cx, fildes), outcome));
    zero_result(outcome)
}

/// Move the position of a descriptor.
pub fn sys_lseek<Cx: FileAccess>(cx: &Cx, fildes: Cx::Fd, offset: i64, whence: i32) -> (result: Result<
    usize,
    Errno,
>)
    ensures
        exists|outcome: Result<usize, FileAccessError>| #[trigger]
            call_ensures(Cx::lseek, (cx, fildes, offset, whence), outcome) && result
                == errno_outcome(outcome),
{
    let outcome = cx.lseek(fildes, offset, whence);
    assert(call_ensures(Cx::lseek, (cx, fildes, offset, whence), outcome));
    to_errno(outcome)
}

/// Make a pipe: the descriptor to read from and the one to write to.
pub fn sys_pipe<Cx: FileAccess>(cx: &Cx) -> (result: Result<(Cx::Fd, Cx::Fd), Errno>)
    ensures
        exists|outcome: Result<(Cx::Fd, Cx::Fd), FileAccessError>| #[trigger]
            call_ensures(Cx::pipe, (cx,), outcome) && result == errno_outcome(outcome),
{
    let outcome = cx.pipe();
    assert(call_ensures(Cx::pipe, (cx,), outcome));
    to_errno(outcome)
}

/// The machine word of a descriptor: a negative number wraps.
pub open spec fn descriptor_word(fd: i32) -> int {
    if fd >= 0 {
        fd as int
    } else {
        usize::MAX + 1 + fd
    }
}

/// What a duplication returns for what the context says.
pub open spec fn descriptor_outcome(
    outcome: Result<i32, FileAccessError>,
    result: Result<usize, Errno>,
) -> bool {
    match outcome {
        Ok(fd) => result is Ok && result->Ok_0 == descriptor_word(fd),
        Err(error) => result == Err::<usize, Errno>(file_errno(error)),
    }
}

/// Turn a new descriptor into a machine word and an error into its number.
pub fn descriptor_result(outcome: Result<i32, FileAccessError>) -> (result: Result<usize, Errno>)
    ensures
        descriptor_outcome(outcome, result),
{
    match outcome {
        Ok(fd) => {
            if fd >= 0 {
                Ok(fd as usize)
            } else {
                let back: usize = (-(fd as i64)) as usize;
                Ok(usize::MAX - back + 1)
            }
        },
        Err(error) => Err(error.errno()),
    }
}

/// A descriptor that the context gave, and its number.
pub open spec fn numbered<Cx: FileAccess>(
    outcome: Result<Cx::Fd, FileAccessError>,
    number: Result<i32, FileAccessError>,
) -> bool {
    match outcome {
        Ok(fd) => number is Ok && call_ensures(
            <Cx::Fd as Into<i32>>::into,
            (fd,),
            number->Ok_0,
        ),
        Err(error) => number == Err::<i32, FileAccessError>(error),
    }
}

fn descriptor_number<Cx: FileAccess>(outcome: Result<Cx::Fd, FileAccessError>) -> (number: Result<
    i32,
    FileAccessError,
>)
    ensures
        numbered::<Cx>(outcome, number),
{
    match outcome {
        Ok(fd) => {
            let number: i32 = fd.into();
            Ok(number)
        },
        Err(error) => Err(error),
    }
}

/// Duplicate a descriptor.
pub fn sys_dup<Cx: FileAccess>(cx: &Cx, oldfd: Cx::Fd) -> (result: Result<usize, Errno>)
    ensures
        exists|outcome: Result<Cx::Fd, FileAccessError>, number: Result<i32, FileAccessError>|
            {
                &&& #[trigger] call_ensures(Cx::dup, (cx, oldfd), outcome)
                &&& #[trigger] numbered::<Cx>(outcome, number)
                &&& descriptor_outcome(number, result)
            },
{
    let outcome = cx.dup(oldfd);
    assert(call_ensures(Cx::dup, (cx, oldfd), outcome));
    let number = descriptor_number::<Cx>(outcome);
    descriptor_result(number)
}

/// Duplicate a descriptor under a given number.
pub fn sys_dup2<Cx: FileAccess>(cx: &Cx, oldfd: Cx::Fd, newfd: Cx::Fd) -> (result: Result<usize, Errno>)
    ensures
        exists|outcome: Result<Cx::Fd, FileAccessError>, number: Result<i32, FileAccessError>|
            {
                &&& #[trigger] call_ensures(Cx::dup2, (cx, oldfd, newfd), outcome)
                &&& #[trigger] numbered::<Cx>(outcome, number)
                &&& descriptor_outcome(number, result)
            },
{
    let outcome = cx.dup2(oldfd, newfd);
    assert(call_ensures(Cx::dup2, (cx, oldfd, newfd), outcome));
    let number = descriptor_number::<Cx>(outcome);
    descriptor_result(number)
}

/// Why the bytes are no path.
pub open spec fn path_error(path_bytes: Seq<u8>) -> Option<Errno> {
    if path_bytes.len() > PATH_MAX {
        Some(Errno::ENAMETOOLONG)
    } else if !valid_utf8(path_bytes) {
        Some(Errno::EINVAL)
    } else {
        None
    }
}

/// The absolute path of `path`: itself if it is absolute, else below `cwd`.
pub open spec fn resolved(cwd: Seq<char>, path: Seq<char>) -> Seq<char> {
    if is_absolute_text(path) {
        path
    } else {
        joined(cwd, path)
    }
}

/// `path` is what the bytes stand for in this context. The working directory
/// matters, and is asked for, only for a relative path.
pub open spec fn resolves<Cx: CwdAccess>(
    cx: &Cx,
    path_bytes: Seq<u8>,
    path: AbsoluteOwnedPath,
) -> bool {
    let text = decode_utf8(path_bytes);
    if is_absolute_text(text) {
        path@ == text
    } else {
        exists|cwd: AbsoluteOwnedPath| #[trigger]
            call_ensures(Cx::current_working_directory, (cx,), cwd) && path@ == joined(cwd@, text)
    }
}

/// The absolute path of `text` in a working directory.
pub fn resolve(cwd: &AbsoluteOwnedPath, text: &str) -> (path: AbsoluteOwnedPath)
    ensures
        path@ == resolved(cwd@, text@),
{
    match AbsoluteOwnedPath::try_new(OwnedPath::new(text)) {
        Ok(path) => path,
        Err(_) => {
            let mut path = cwd.clone();
            path.push(text);
            path
        },
    }
}

fn resolve_path<Cx: CwdAccess>(cx: &Cx, path_bytes: &[u8]) -> (result: Result<
    AbsoluteOwnedPath,
    Errno,
>)
    ensures
        match path_error(path_bytes@) {
            Some(error) => result == Err::<AbsoluteOwnedPath, Errno>(error),
            None => result is Ok && resolves(cx, path_bytes@, result->Ok_0),
        },
{
    if path_bytes.len() > PATH_MAX {
        return Err(Errno::ENAMETOOLONG);
    }
    let text = match text_from_utf8(path_bytes) {
        Some(text) => text,
        None => {
            return Err(Errno::EINVAL);
        },
    };
    match AbsoluteOwnedPath::try_new(OwnedPath::new(text)) {
        Ok(path) => Ok(path),
        Err(_) => {
            let cwd = cx.current_working_directory();
            assert(call_ensures(Cx::current_working_directory, (cx,), cwd));
            Ok(resolve(&cwd, text))
        },
    }
}

/// Change the working directory.
pub fn sys_chdir<Cx: CwdAccess>(cx: &Cx, path_bytes: &[u8]) -> (result: Result<usize, Errno>)
    ensures
        match path_error(path_bytes@) {
            Some(error) => result == Err::<usize, Errno>(error),
            None => exists|path: &AbsoluteOwnedPath, outcome: Result<(), Errno>|
                {
                    &&& #[trigger] call_ensures(Cx::chdir, (cx, path), outcome)
                    &&& resolves(cx, path_bytes@, *path)
                    &&& result == match outcome {
                        Ok(()) => Ok::<usize, Errno>(0),
                        Err(error) => Err(error),
                    }
                },
        },
{
    let path = match resolve_path(cx, path_bytes) {
        Ok(path) => path,
        Err(error) => {
            return Err(error);
        },
    };
    let outcome = cx.chdir(&path);
    assert(call_ensures(Cx::chdir, (cx, &path), outcome));
    match outcome {
        Ok(()) => Ok(0),
        Err(error) => Err(error),
    }
}

/// Make a directory.
pub fn sys_mkdir<Cx: CwdAccess + FileAccess>(cx: &Cx, path_bytes: &[u8], _mode: usize) -> (result:
    Result<usize, Errno>)
    ensures
        match path_error(path_bytes@) {
            Some(error) => result == Err::<usize, Errno>(error),
            None => exists|path: &AbsoluteOwnedPath, outcome: Result<(), FileAccessError>|
                {
                    &&& #[trigger] call_ensures(Cx::mkdir, (cx, path), outcome)
                    &&& resolves(cx, path_bytes@, *path)
                    &&& result == zero_outcome(outcome)
                },
        },
{
    let path = match resolve_path(cx, path_bytes) {
        Ok(path) => path,
        Err(error) => {
            return Err(error);
        },
    };
    let outcome = cx.mkdir(&path);
    assert(call_ensures(Cx::mkdir, (cx, &path), outcome));
    zero_result(outcome)
}

/// Remove a directory.
pub fn sys_rmdir<Cx: CwdAccess + FileAccess>(cx: &Cx, path_bytes: &[u8]) -> (result: Result<
    usize,
    Errno,
>)
    ensures
        match path_error(path_bytes@) {
            Some(error) => result == Err::<usize, Errno>(error),
            None => exists|path: &AbsoluteOwnedPath, outcome: Result<(), FileAccessError>|
                {
                    &&& #[trigger] call_ensures(Cx::rmdir, (cx, path), outcome)
                    &&& resolves(cx, path_bytes@, *path)
                    &&& result == zero_outcome(outcome)
                },
        },
{
    let path = match resolve_path(cx, path_bytes) {
        Ok(path) => path,
        Err(error) => {
            return Err(error);
        },
    };
    let outcome = cx.rmdir(&path);
    assert(call_ensures(Cx::rmdir, (cx, &path), outcome));
    zero_result(outcome)
}

/// Law: a gathered write goes on as long as each buffer is written completely, adds up what
/// was written, and ends at the first error, the first short write or the last buffer. Empty
/// buffers are not written.
pub proof fn law_gathered_write(
    first: &[u8],
    rest: Seq<&[u8]>,
    outcomes: Seq<Result<usize, FileAccessError>>,
    written: usize,
    error: FileAccessError,
    total: usize,
)
    requires
        total + written <= usize::MAX,
    ensures
        ({
            let buffers = seq![first] + rest;
            let none = Seq::<Result<usize, FileAccessError>>::empty();
            let ok = Ok::<usize, FileAccessError>(written);
            let bad = Err::<usize, FileAccessError>(error);
            &&& gathered(Seq::empty(), none, total) == Some(Ok::<usize, Errno>(total))
            &&& first@.len() == 0 ==> gathered(buffers, outcomes, total) == gathered(
                rest,
                outcomes,
                total,
            )
            &&& first@.len() > 0 ==> gathered(buffers, seq![bad], total) == Some(
                Err::<usize, Errno>(file_errno(error)),
            )
            &&& first@.len() > 0 && written < first@.len() ==> gathered(buffers, seq![ok], total)
                == Some(Ok::<usize, Errno>((total + written) as usize))
            &&& first@.len() > 0 && written >= first@.len() ==> gathered(
                buffers,
                seq![ok] + outcomes,
                total,
            ) == gathered(rest, outcomes, (total + written) as usize)
        }),
{
    let buffers = seq![first] + rest;
    let ok = Ok::<usize, FileAccessError>(written);
    assert(buffers.drop_first() =~= rest);
    assert((seq![ok] + outcomes).drop_first() =~= outcomes);
}

/// Law: the buffers that are written are those that hold something, in order.
pub proof fn law_filled_buffers(first: &[u8], rest: Seq<&[u8]>)
    ensures
        filled(Seq::empty()) == Seq::<&[u8]>::empty(),
        filled(seq![first] + rest) == if first@.len() > 0 {
            seq![first] + filled(rest)
        } else {
            filled(rest)
        },
{
    assert((seq![first] + rest).drop_first() =~= rest);
}

/// Law: a path is refused if it has more than 4096 bytes, and else if it is no UTF-8. An
/// absolute path stands for itself, any other for its place below the working directory.
pub proof fn law_path_resolution(bytes: Seq<u8>, cwd: Seq<char>, path: Seq<char>)
    ensures
        path_error(bytes) == Some(Errno::ENAMETOOLONG) <==> bytes.len() > 4096,
        path_error(bytes) == Some(Errno::EINVAL) <==> bytes.len() <= 4096 && !valid_utf8(bytes),
        path_error(bytes) is None <==> bytes.len() <= 4096 && valid_utf8(bytes),
        path.len() > 0 && path[0] == '/' ==> resolved(cwd, path) == path,
        path.len() == 0 || path[0] != '/' ==> resolved(cwd, path) == joined(cwd, path),
{
}

/// Law: a directory's path is put at the front of the buffer with a zero behind it, and what
/// is further back stays.
pub proof fn law_path_is_terminated(buf: Seq<u8>, text: Seq<u8>, i: int)
    requires
        text.len() < buf.len(),
        0 <= i < buf.len(),
    ensures
        terminated_front(buf, text).len() == buf.len(),
        terminated_front(buf, text)[i] == if i < text.len() {
            text[i]
        } else if i == text.len() {
            0
        } else {
            buf[i]
        },
{
}

/// Law: calls that only succeed or fail return zero or the error's number; a descriptor is
/// returned as its number, and a negative one wraps.
pub proof fn law_simple_results(error: FileAccessError, fd: i32, result: Result<usize, Errno>)
    ensures
        zero_outcome(Ok::<(), FileAccessError>(())) == Ok::<usize, Errno>(0),
        zero_outcome(Err::<(), FileAccessError>(error)) == Err::<usize, Errno>(file_errno(error)),
        descriptor_outcome(Ok::<i32, FileAccessError>(fd), result) && fd >= 0 ==> result == Ok::<
            usize,
            Errno,
        >(fd as usize),
        descriptor_outcome(Err::<i32, FileAccessError>(error), result) ==> result == Err::<
            usize,
            Errno,
        >(file_errno(error)),
        descriptor_word(fd) == if fd < 0 {
            usize::MAX + 1 + fd
        } else {
            fd as int
        },
        SEEK_SET == 0 && SEEK_CUR == 1 && SEEK_END == 2,
{
}

/// Law: a descriptor is numbered by its own conversion, and an error stays that error.
pub proof fn law_descriptor_is_numbered<Cx: FileAccess>(
    outcome: Result<Cx::Fd, FileAccessError>,
    number: Result<i32, FileAccessError>,
)
    requires
        numbered::<Cx>(outcome, number),
    ensures
        outcome is Ok <==> number is Ok,
        outcome is Ok ==> call_ensures(
            <Cx::Fd as Into<i32>>::into,
            (outcome->Ok_0,),
            number->Ok_0,
        ),
        outcome is Err ==> number->Err_0 == outcome->Err_0,
{
}

} // verus!
