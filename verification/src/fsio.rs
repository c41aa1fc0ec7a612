//! File and path primitives over raw file descriptors.
//!
//! Every function that crosses into the operating system is a small
//! trusted wrapper around one nix call; everything that loops, builds
//! paths or assembles file contents is verified on top of them.

use vstd::prelude::*;
use crate::error::Error;
use crate::pathutil::{dirname, join_path, normalize};

verus! {

/// What `String::from_utf8_lossy` decodes a byte string to; a function
/// of the bytes alone.
pub uninterp spec fn lossy_decode(b: Seq<u8>) -> Seq<char>;

/// Relies on nix's `open` with `O_RDONLY`: on success the returned
/// descriptor is non-negative, else the errno comes back.
#[verifier::external_body]
fn sys_open_read(path: &str) -> (r: Result<i32, i32>) {
    match nix::fcntl::open(path, nix::fcntl::OFlag::O_RDONLY, nix::sys::stat::Mode::empty()) {
        Ok(fd) => Ok(fd),
        Err(e) => Err(e as i32),
    }
}

/// Relies on nix's `open` with `O_WRONLY | O_CREAT | O_TRUNC`.
#[verifier::external_body]
fn sys_open_write(path: &str) -> (r: Result<i32, i32>) {
    let flags = nix::fcntl::OFlag::O_WRONLY | nix::fcntl::OFlag::O_CREAT
        | nix::fcntl::OFlag::O_TRUNC;
    match nix::fcntl::open(path, flags, nix::sys::stat::Mode::from_bits_truncate(0o644)) {
        Ok(fd) => Ok(fd),
        Err(e) => Err(e as i32),
    }
}

/// Relies on nix's `read`: it fills a prefix of the buffer and returns
/// how many bytes it placed there, never more than the buffer holds.
#[verifier::external_body]
fn sys_read(fd: i32, buf: &mut Vec<u8>) -> (r: Result<usize, i32>)
    ensures
        final(buf)@.len() == old(buf)@.len(),
        (r matches Ok(n) ==> n <= old(buf)@.len()),
{
    match nix::unistd::read(fd, buf.as_mut_slice()) {
        Ok(n) => Ok(n),
        Err(e) => Err(e as i32),
    }
}

/// Relies on nix's `write` on the tail of the buffer from `off`: it
/// consumes at most what remains.
#[verifier::external_body]
fn sys_write_from(fd: i32, buf: &Vec<u8>, off: usize) -> (r: Result<usize, i32>)
    requires
        off <= buf@.len(),
    ensures
        (r matches Ok(n) ==> n <= buf@.len() - off),
{
    match nix::unistd::write(fd, &buf.as_slice()[off..]) {
        Ok(n) => Ok(n),
        Err(e) => Err(e as i32),
    }
}

/// Relies on nix's `close`.
#[verifier::external_body]
fn sys_close(fd: i32) {
    let _ = nix::unistd::close(fd);
}

/// Relies on nix's `mkdir` with mode `0755`.
#[verifier::external_body]
fn sys_mkdir(path: &str) -> (r: Result<(), i32>) {
    match nix::unistd::mkdir(path, nix::sys::stat::Mode::from_bits_truncate(0o755)) {
        Ok(()) => Ok(()),
        Err(e) => Err(e as i32),
    }
}

/// Relies on nix's `stat`, which follows symlinks: whether the path
/// names something that exists right now.
#[verifier::external_body]
pub(crate) fn path_exists(path: &str) -> (r: bool) {
    nix::sys::stat::stat(path).is_ok()
}

/// Relies on nix's `readlink`: the target of a symlink, or nothing for
/// anything that is not a readable symlink with a UTF-8 target.
#[verifier::external_body]
fn sys_readlink(path: &str) -> (r: Option<String>) {
    match nix::fcntl::readlink(path) {
        Ok(t) => t.into_string().ok(),
        Err(_) => None,
    }
}

/// Relies on `String::from_utf8_lossy`: the decoding depends on the
/// bytes alone.
#[verifier::external_body]
fn bytes_to_string(v: Vec<u8>) -> (r: String)
    ensures
        r@ == lossy_decode(v@),
{
    String::from_utf8_lossy(&v).to_string()
}

/// The errno that marks an already existing directory entry.
pub const ERRNO_EEXIST: i32 = 17;

/// Read a whole file; the result is the lossy decoding of its bytes.
pub fn read_file_to_string(path: &str) -> (r: Result<String, Error>)
    ensures
        (r matches Ok(s) ==> exists|b: Seq<u8>| s@ == lossy_decode(b)),
        (r matches Err(e) ==> e is Syscall || e is Io),
{
    let fd = match sys_open_read(path) {
        Ok(fd) => fd,
        Err(e) => {
            return Err(Error::Syscall { errno: e });
        },
    };
    let mut acc: Vec<u8> = Vec::new();
    let mut buf: Vec<u8> = Vec::new();
    let mut i: usize = 0;
    while i < 4096
        invariant
            buf@.len() == i,
            i <= 4096,
        decreases 4096 - i,
    {
        buf.push(0u8);
        i += 1;
    }
    loop
        invariant
            buf@.len() == 4096,
        decreases usize::MAX - acc.len(),
    {
        let n = match sys_read(fd, &mut buf) {
            Ok(n) => n,
            Err(e) => {
                sys_close(fd);
                return Err(Error::Syscall { errno: e });
            },
        };
        if n == 0 {
            break;
        }
        if acc.len() >= usize::MAX - n {
            sys_close(fd);
            return Err(Error::Io { msg: String::from_str("file too large") });
        }
        let ghost pre_len = acc@.len();
        let mut k: usize = 0;
        while k < n
            invariant
                n <= buf@.len(),
                acc@.len() == pre_len + k,
                pre_len < usize::MAX - n,
            decreases n - k,
        {
            acc.push(buf[k]);
            k += 1;
        }
    }
    sys_close(fd);
    let s = bytes_to_string(acc);
    Ok(s)
}

/// Create a directory and all of its missing parents.
pub fn create_dir_all(path: &str) -> (r: Result<(), i32>) {
    let n = path.unicode_len();
    if n == 0 {
        return Ok(());
    }
    let mut i: usize = 1;
    while i < n
        invariant
            1 <= i <= n,
            n == path@.len(),
        decreases n - i,
    {
        if path.get_char(i) == '/' {
            let prefix = path.substring_char(0, i);
            match sys_mkdir(prefix) {
                Ok(()) => {},
                Err(e) => {
                    if e != ERRNO_EEXIST {
                        return Err(e);
                    }
                },
            }
        }
        i += 1;
    }
    match sys_mkdir(path) {
        Ok(()) => Ok(()),
        Err(e) => {
            if e != ERRNO_EEXIST {
                Err(e)
            } else {
                Ok(())
            }
        },
    }
}

/// Write a whole file, creating the parent directories first.
pub fn write_file(path: &str, content: &str) -> (r: Result<(), Error>)
    ensures
        (r matches Err(e) ==> e is Syscall || e is Io),
{
    let dir = dirname(path);
    if dir.as_str().unicode_len() > 0 {
        match create_dir_all(dir.as_str()) {
            Ok(()) => {},
            Err(e) => {
                return Err(Error::Syscall { errno: e });
            },
        }
    }
    let fd = match sys_open_write(path) {
        Ok(fd) => fd,
        Err(e) => {
            return Err(Error::Syscall { errno: e });
        },
    };
    let bytes = content.as_bytes_vec();
    let mut off: usize = 0;
    while off < bytes.len()
        invariant
            off <= bytes@.len(),
        decreases bytes@.len() - off,
    {
        let n = match sys_write_from(fd, &bytes, off) {
            Ok(n) => n,
            Err(e) => {
                sys_close(fd);
                return Err(Error::Syscall { errno: e });
            },
        };
        if n == 0 {
            sys_close(fd);
            return Err(Error::Io { msg: String::from_str("short write") });
        }
        off += n;
    }
    sys_close(fd);
    Ok(())
}

/// Resolve a path's symlink chain and normalize it lexically: the
/// canonical form used when devices are matched.  The path must exist;
/// at most a bounded number of link hops is followed.
pub fn canonical_path(p: &str) -> (r: Result<String, Error>)
    ensures
        (r matches Err(e) ==> e is Syscall),
{
    if !path_exists(p) {
        return Err(Error::Syscall { errno: 2 });
    }
    let mut cur: String = p.to_owned();
    let mut hops: usize = 0;
    while hops < 32
        decreases 32 - hops,
    {
        match sys_readlink(cur.as_str()) {
            Some(target) => {
                let m = target.as_str().unicode_len();
                if m > 0 && target.as_str().get_char(0) == '/' {
                    cur = target;
                } else {
                    let dir = dirname(cur.as_str());
                    cur = join_path(dir.as_str(), target.as_str());
                }
                hops += 1;
            },
            None => {
                break;
            },
        }
    }
    Ok(normalize(cur.as_str()))
}

} // verus!
