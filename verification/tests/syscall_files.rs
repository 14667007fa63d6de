//! File descriptors, directories and file status for user programs.

use core::cell::{Cell, RefCell};
use std::collections::BTreeMap;
use std::rc::Rc;

use axiomos::abi::Errno;
use axiomos::syscall::access::{CwdAccess, FileAccess, FileAccessError, FileInfo};
use axiomos::syscall::stat::{sys_fstat, StatAccess, UserStat, S_IFREG};
use axiomos::syscall::unistd::{
    sys_chdir, sys_close, sys_dup, sys_dup2, sys_getcwd, sys_lseek, sys_mkdir, sys_pipe, sys_read,
    sys_rmdir, sys_write, sys_writev, SEEK_CUR, SEEK_END, SEEK_SET,
};
use axiomos::vfs::path::{AbsoluteOwnedPath, OwnedPath};

fn absolute(text: &str) -> AbsoluteOwnedPath {
    AbsoluteOwnedPath::try_new(OwnedPath::new(text)).expect("absolute path")
}

/// Files in memory, by path.
struct MemoryFiles {
    files: BTreeMap<String, Rc<RefCell<Vec<u8>>>>,
    open: RefCell<BTreeMap<i32, (Rc<RefCell<Vec<u8>>>, Cell<usize>)>>,
}

struct MemoryFileInfo {
    path: String,
}

impl FileInfo for MemoryFileInfo {}

impl MemoryFiles {
    fn with(path: &str, data: &[u8]) -> Self {
        let mut files = BTreeMap::new();
        files.insert(String::from(path), Rc::new(RefCell::new(data.to_vec())));
        MemoryFiles { files, open: RefCell::new(BTreeMap::new()) }
    }

    fn opened(&self, path: &str) -> i32 {
        let info = self.file_info(&absolute(path)).expect("file info");
        self.open(&info).expect("open")
    }
}

impl FileAccess for MemoryFiles {
    type FileInfo = MemoryFileInfo;
    type Fd = i32;

    fn file_info(&self, path: &AbsoluteOwnedPath) -> Result<Self::FileInfo, FileAccessError> {
        if self.files.contains_key(path.as_str()) {
            Ok(MemoryFileInfo { path: String::from(path.as_str()) })
        } else {
            Err(FileAccessError::NotFound)
        }
    }

    fn open(&self, info: &Self::FileInfo) -> Result<i32, FileAccessError> {
        let file = self.files.get(&info.path).cloned().ok_or(FileAccessError::NotFound)?;
        let mut open = self.open.borrow_mut();
        let mut fd = 0;
        while open.contains_key(&fd) {
            fd += 1;
        }
        open.insert(fd, (file, Cell::new(0)));
        Ok(fd)
    }

    fn mkdir(&self, path: &AbsoluteOwnedPath) -> Result<(), FileAccessError> {
        match path.as_str() {
            "/home/new" => Ok(()),
            _ => Err(FileAccessError::AlreadyExists),
        }
    }

    fn rmdir(&self, path: &AbsoluteOwnedPath) -> Result<(), FileAccessError> {
        match path.as_str() {
            "/home/old" => Ok(()),
            _ => Err(FileAccessError::DirectoryNotEmpty),
        }
    }

    fn read(&self, fd: i32, buf: &mut [u8]) -> Result<usize, FileAccessError> {
        let open = self.open.borrow();
        let (file, position) = open.get(&fd).ok_or(FileAccessError::BadFileDescriptor)?;
        let data = file.borrow();
        let from = position.get().min(data.len());
        let len = (data.len() - from).min(buf.len());
        buf[..len].copy_from_slice(&data[from..from + len]);
        position.set(from + len);
        Ok(len)
    }

    fn write(&self, fd: i32, buf: &[u8]) -> Result<usize, FileAccessError> {
        let open = self.open.borrow();
        let (file, position) = open.get(&fd).ok_or(FileAccessError::BadFileDescriptor)?;
        let mut data = file.borrow_mut();
        let end = position.get() + buf.len();
        if end > data.len() {
            data.resize(end, 0);
        }
        data[position.get()..end].copy_from_slice(buf);
        position.set(end);
        Ok(buf.len())
    }

    fn close(&self, fd: i32) -> Result<(), FileAccessError> {
        match self.open.borrow_mut().remove(&fd) {
            Some(_) => Ok(()),
            None => Err(FileAccessError::BadFileDescriptor),
        }
    }

    fn lseek(&self, fd: i32, offset: i64, whence: i32) -> Result<usize, FileAccessError> {
        let open = self.open.borrow();
        let (file, position) = open.get(&fd).ok_or(FileAccessError::BadFileDescriptor)?;
        let base = match whence {
            SEEK_SET => 0,
            SEEK_CUR => position.get(),
            SEEK_END => file.borrow().len(),
            _ => return Err(FileAccessError::InvalidArgument),
        };
        let target = i128::try_from(base)
            .ok()
            .and_then(|base| base.checked_add(i128::from(offset)))
            .and_then(|position| usize::try_from(position).ok())
            .ok_or(FileAccessError::InvalidArgument)?;
        position.set(target);
        Ok(target)
    }

    fn pipe(&self) -> Result<(i32, i32), FileAccessError> {
        Ok((3, 4))
    }

    fn dup(&self, oldfd: i32) -> Result<i32, FileAccessError> {
        if oldfd == 0 {
            Ok(7)
        } else {
            Err(FileAccessError::TooManyOpenFiles)
        }
    }

    fn dup2(&self, _oldfd: i32, newfd: i32) -> Result<i32, FileAccessError> {
        Ok(newfd)
    }
}

impl CwdAccess for MemoryFiles {
    fn current_working_directory(&self) -> AbsoluteOwnedPath {
        absolute("/home")
    }

    fn chdir(&self, path: &AbsoluteOwnedPath) -> Result<(), Errno> {
        match path.as_str() {
            "/home/work" | "/srv" => Ok(()),
            _ => Err(Errno::ENOENT),
        }
    }
}

#[test]
fn file_access_errors_map_to_specific_errno_values() {
    for (error, expected) in [
        (FileAccessError::BadFileDescriptor, Errno::EBADF),
        (FileAccessError::NotFound, Errno::ENOENT),
        (FileAccessError::AlreadyExists, Errno::EEXIST),
        (FileAccessError::NotDirectory, Errno::ENOTDIR),
        (FileAccessError::IsDirectory, Errno::EISDIR),
        (FileAccessError::DirectoryNotEmpty, Errno::ENOTEMPTY),
        (FileAccessError::NotSeekable, Errno::ESPIPE),
        (FileAccessError::InvalidArgument, Errno::EINVAL),
        (FileAccessError::TooManyOpenFiles, Errno::EMFILE),
        (FileAccessError::NotReadable, Errno::EACCES),
        (FileAccessError::NotWritable, Errno::EACCES),
        (FileAccessError::BrokenPipe, Errno::EPIPE),
        (FileAccessError::Overflow, Errno::EOVERFLOW),
        (FileAccessError::Io, Errno::EIO),
        (FileAccessError::OperationNotSupported, Errno::EOPNOTSUPP),
    ] {
        assert_eq!(error.errno(), expected);
    }
}

#[test]
fn memory_file_seek_rejects_invalid_positions() {
    let access = MemoryFiles::with("/seek", &[]);
    let fd = access.opened("/seek");

    assert_eq!(access.lseek(fd, -1, SEEK_SET), Err(FileAccessError::InvalidArgument));
    assert_eq!(access.lseek(fd, 1, SEEK_SET), Ok(1));
    assert_eq!(access.lseek(fd, -2, SEEK_CUR), Err(FileAccessError::InvalidArgument));
}

#[test]
fn seek_errors_reach_the_program_as_errno() {
    let access = MemoryFiles::with("/seek", b"abc");
    let fd = access.opened("/seek");

    assert_eq!(sys_lseek(&access, fd, -1, SEEK_SET), Err(Errno::EINVAL));
    assert_eq!(sys_lseek(&access, fd, -1, SEEK_END), Ok(2));
    assert_eq!(sys_lseek(&access, fd, 0, 9), Err(Errno::EINVAL));
    assert_eq!(sys_lseek(&access, 99, 0, SEEK_SET), Err(Errno::EBADF));
}

#[test]
fn read_gives_back_what_write_wrote() {
    let access = MemoryFiles::with("/file", &[]);
    let fd = access.opened("/file");

    assert_eq!(sys_write(&access, fd, b"hello"), Ok(5));
    assert_eq!(sys_lseek(&access, fd, 0, SEEK_SET), Ok(0));
    let mut buf = [0u8; 8];
    assert_eq!(sys_read(&access, fd, &mut buf), Ok(5));
    assert_eq!(&buf[..5], b"hello");
    assert_eq!(sys_close(&access, fd), Ok(0));
    assert_eq!(sys_read(&access, fd, &mut buf), Err(Errno::EBADF));
    assert_eq!(sys_close(&access, fd), Err(Errno::EBADF));
}

#[test]
fn writev_writes_the_buffers_in_order() {
    let access = MemoryFiles::with("/file", &[]);
    let fd = access.opened("/file");

    let buffers: [&[u8]; 3] = [b"ab", b"", b"cde"];
    assert_eq!(sys_writev(&access, fd, &buffers), Ok(5));
    assert_eq!(sys_lseek(&access, fd, 0, SEEK_SET), Ok(0));
    let mut buf = [0u8; 8];
    assert_eq!(sys_read(&access, fd, &mut buf), Ok(5));
    assert_eq!(&buf[..5], b"abcde");
    assert_eq!(sys_writev(&access, 99, &buffers), Err(Errno::EBADF));
}

#[test]
fn descriptors_are_handed_on() {
    let access = MemoryFiles::with("/file", &[]);

    assert_eq!(sys_pipe(&access), Ok((3, 4)));
    assert_eq!(sys_dup(&access, 0), Ok(7));
    assert_eq!(sys_dup(&access, 1), Err(Errno::EMFILE));
    assert_eq!(sys_dup2(&access, 0, 12), Ok(12));
}

#[test]
fn relative_paths_start_at_the_working_directory() {
    let access = MemoryFiles::with("/file", &[]);

    assert_eq!(sys_chdir(&access, b"work"), Ok(0));
    assert_eq!(sys_chdir(&access, b"/srv"), Ok(0));
    assert_eq!(sys_chdir(&access, b"/nowhere"), Err(Errno::ENOENT));
    assert_eq!(sys_mkdir(&access, b"new", 0o755), Ok(0));
    assert_eq!(sys_mkdir(&access, b"old", 0o755), Err(Errno::EEXIST));
    assert_eq!(sys_rmdir(&access, b"/home/old"), Ok(0));
    assert_eq!(sys_rmdir(&access, b"new"), Err(Errno::ENOTEMPTY));
}

#[test]
fn path_bytes_that_are_no_text_are_refused() {
    let access = MemoryFiles::with("/file", &[]);

    assert_eq!(sys_chdir(&access, &[0x77, 0xFF]), Err(Errno::EINVAL));
    assert_eq!(sys_mkdir(&access, &[0xC3], 0), Err(Errno::EINVAL));
    assert_eq!(sys_rmdir(&access, &[0xED, 0xA0, 0x80]), Err(Errno::EINVAL));
    assert_eq!(sys_mkdir(&access, &[0xC3, 0xA4], 0), Err(Errno::EEXIST));
}

struct Cwd {
    path: AbsoluteOwnedPath,
}

impl CwdAccess for Cwd {
    fn current_working_directory(&self) -> AbsoluteOwnedPath {
        self.path.clone()
    }

    fn chdir(&self, _path: &AbsoluteOwnedPath) -> Result<(), Errno> {
        Ok(())
    }
}

#[test]
fn test_getcwd() {
    for args in [
        (("/test/path", 0), Err(Errno::EINVAL)),
        (("/test/path", 10), Err(Errno::ERANGE)),
        (("/test/path", 11), Ok(11)),
    ] {
        let ((path, size), expected) = args;
        let access = Cwd { path: absolute(path) };
        let mut buf = vec![0u8; size];
        let res = sys_getcwd(&access, &mut buf);
        match expected {
            Ok(expected_len) => match res {
                Ok(written) => {
                    assert_eq!(written, expected_len);
                    assert_eq!(path.as_bytes(), &buf[..path.len()]);
                    assert_eq!(0, buf[path.len()]);
                }
                Err(e) => panic!("failed with {e:?} but expected success"),
            },
            Err(e) => {
                assert_eq!(res, Err(e));
            }
        }
    }
}

struct NoInfo;

impl FileInfo for NoInfo {}

struct TestStatAccess {
    result: Result<UserStat, FileAccessError>,
}

impl FileAccess for TestStatAccess {
    type FileInfo = NoInfo;
    type Fd = i32;

    fn file_info(&self, _path: &AbsoluteOwnedPath) -> Result<NoInfo, FileAccessError> {
        Err(FileAccessError::OperationNotSupported)
    }

    fn open(&self, _info: &NoInfo) -> Result<i32, FileAccessError> {
        Err(FileAccessError::OperationNotSupported)
    }

    fn mkdir(&self, _path: &AbsoluteOwnedPath) -> Result<(), FileAccessError> {
        Err(FileAccessError::OperationNotSupported)
    }

    fn rmdir(&self, _path: &AbsoluteOwnedPath) -> Result<(), FileAccessError> {
        Err(FileAccessError::OperationNotSupported)
    }

    fn read(&self, _fd: i32, _buf: &mut [u8]) -> Result<usize, FileAccessError> {
        Err(FileAccessError::OperationNotSupported)
    }

    fn write(&self, _fd: i32, _buf: &[u8]) -> Result<usize, FileAccessError> {
        Err(FileAccessError::OperationNotSupported)
    }

    fn close(&self, _fd: i32) -> Result<(), FileAccessError> {
        Err(FileAccessError::OperationNotSupported)
    }

    fn lseek(&self, _fd: i32, _offset: i64, _whence: i32) -> Result<usize, FileAccessError> {
        Err(FileAccessError::OperationNotSupported)
    }

    fn pipe(&self) -> Result<(i32, i32), FileAccessError> {
        Err(FileAccessError::OperationNotSupported)
    }

    fn dup(&self, _oldfd: i32) -> Result<i32, FileAccessError> {
        Err(FileAccessError::OperationNotSupported)
    }

    fn dup2(&self, _oldfd: i32, _newfd: i32) -> Result<i32, FileAccessError> {
        Err(FileAccessError::OperationNotSupported)
    }
}

impl StatAccess for TestStatAccess {
    fn fstat(&self, _fd: i32) -> Result<UserStat, FileAccessError> {
        self.result
    }
}

#[test]
fn fstat_returns_the_context_status_without_translation() {
    let expected = UserStat {
        st_dev: 1,
        st_ino: 2,
        st_nlink: 3,
        st_mode: S_IFREG | 0o640,
        st_uid: 4,
        st_gid: 5,
        __pad0: 0,
        st_rdev: 6,
        st_size: 7,
        st_blksize: 4096,
        st_blocks: 8,
        st_atime: 9,
        st_atime_nsec: 10,
        st_mtime: 11,
        st_mtime_nsec: 12,
        st_ctime: 13,
        st_ctime_nsec: 14,
        __unused: [15, 16, 17],
    };
    let cx = TestStatAccess { result: Ok(expected) };

    let actual = sys_fstat(&cx, 23).expect("fstat succeeds");
    assert_eq!(actual, expected);
}

#[test]
fn fstat_maps_context_errors_to_errno() {
    let cx = TestStatAccess { result: Err(FileAccessError::BadFileDescriptor) };

    assert!(matches!(sys_fstat(&cx, 23), Err(error) if error == Errno::EBADF));
}

/// A descriptor that is more than its number.
#[derive(Debug, PartialEq)]
struct Handle {
    number: i32,
}

impl From<i32> for Handle {
    fn from(number: i32) -> Self {
        Handle { number }
    }
}

impl From<Handle> for i32 {
    fn from(handle: Handle) -> Self {
        handle.number
    }
}

#[derive(Default)]
struct Handles {
    written: RefCell<Vec<(i32, Vec<u8>)>>,
}

impl FileAccess for Handles {
    type FileInfo = NoInfo;
    type Fd = Handle;

    fn file_info(&self, _path: &AbsoluteOwnedPath) -> Result<NoInfo, FileAccessError> {
        Err(FileAccessError::NotFound)
    }

    fn open(&self, _info: &NoInfo) -> Result<Handle, FileAccessError> {
        Err(FileAccessError::NotFound)
    }

    fn mkdir(&self, _path: &AbsoluteOwnedPath) -> Result<(), FileAccessError> {
        Err(FileAccessError::OperationNotSupported)
    }

    fn rmdir(&self, _path: &AbsoluteOwnedPath) -> Result<(), FileAccessError> {
        Err(FileAccessError::OperationNotSupported)
    }

    fn read(&self, _fd: Handle, _buf: &mut [u8]) -> Result<usize, FileAccessError> {
        Err(FileAccessError::NotReadable)
    }

    fn write(&self, fd: Handle, buf: &[u8]) -> Result<usize, FileAccessError> {
        self.written.borrow_mut().push((fd.number, buf.to_vec()));
        Ok(buf.len())
    }

    fn close(&self, _fd: Handle) -> Result<(), FileAccessError> {
        Ok(())
    }

    fn lseek(&self, _fd: Handle, _offset: i64, _whence: i32) -> Result<usize, FileAccessError> {
        Err(FileAccessError::NotSeekable)
    }

    fn pipe(&self) -> Result<(Handle, Handle), FileAccessError> {
        Ok((Handle { number: 3 }, Handle { number: 4 }))
    }

    fn dup(&self, oldfd: Handle) -> Result<Handle, FileAccessError> {
        Ok(Handle { number: oldfd.number + 10 })
    }

    fn dup2(&self, _oldfd: Handle, newfd: Handle) -> Result<Handle, FileAccessError> {
        Ok(newfd)
    }
}

#[test]
fn descriptors_are_the_contexts_own() {
    let handles = Handles::default();
    let handle = |number: i32| Handle { number };
    assert_eq!(sys_pipe(&handles), Ok((handle(3), handle(4))));
    assert_eq!(sys_dup(&handles, handle(7)), Ok(17));
    assert_eq!(sys_dup(&handles, handle(-12)), Ok(usize::MAX - 1));
    assert_eq!(sys_dup2(&handles, handle(7), handle(8)), Ok(8));
    let buffers: [&[u8]; 3] = [b"ab", b"", b"c"];
    assert_eq!(sys_writev(&handles, handle(5), &buffers), Ok(3));
    assert_eq!(
        *handles.written.borrow(),
        vec![(5, b"ab".to_vec()), (5, b"c".to_vec())]
    );
}
