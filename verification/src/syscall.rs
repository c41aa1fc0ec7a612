//! The mount primitives: idempotent mount, plain unmount, and the
//! recursive unmount of a subtree in reverse table order.

use vstd::prelude::*;
use crate::effect::MountSpec;
use crate::error::Error;
use crate::fsio::create_dir_all;
use crate::fstab::{any_mountpoint, get_fstab_entries, unmount_plan};

verus! {

/// The filesystem types the provisioner mounts.
#[derive(Debug, Clone, Copy, PartialEq, Eq, Structural)]
pub enum FsType {
    Vfat,
    Ext4,
    Sysfs,
    Tmpfs,
    Proc,
    Devtmpfs,
    Devpts,
    Efivarfs,
}

/// The name each filesystem type goes by.
pub open spec fn spec_fstype_name(t: FsType) -> Seq<char> {
    match t {
        FsType::Vfat => "vfat"@,
        FsType::Ext4 => "ext4"@,
        FsType::Sysfs => "sysfs"@,
        FsType::Tmpfs => "tmpfs"@,
        FsType::Proc => "proc"@,
        FsType::Devtmpfs => "devtmpfs"@,
        FsType::Devpts => "devpts"@,
        FsType::Efivarfs => "efivarfs"@,
    }
}

impl FsType {
    /// The name handed to the mount syscall, matching
    /// `spec_fstype_name`.
    pub fn name(&self) -> (r: &'static str)
        ensures
            r@ == spec_fstype_name(*self),
    {
        match self {
            FsType::Vfat => "vfat",
            FsType::Ext4 => "ext4",
            FsType::Sysfs => "sysfs",
            FsType::Tmpfs => "tmpfs",
            FsType::Proc => "proc",
            FsType::Devtmpfs => "devtmpfs",
            FsType::Devpts => "devpts",
            FsType::Efivarfs => "efivarfs",
        }
    }
}

/// Relies on nix's `mount`; `legacy_flags` selects the historical
/// magic-number flag set.
#[verifier::external_body]
fn sys_mount(
    source: Option<&str>,
    target: &str,
    fstype: Option<&str>,
    legacy_flags: bool,
) -> (r: Result<(), i32>) {
    let flags = if legacy_flags {
        nix::mount::MsFlags::MS_MGC_MSK
    } else {
        nix::mount::MsFlags::empty()
    };
    match nix::mount::mount::<str, str, str, str>(source, target, fstype, flags, None) {
        Ok(()) => Ok(()),
        Err(e) => Err(e as i32),
    }
}

/// Relies on nix's `umount`.
#[verifier::external_body]
fn sys_umount(target: &str) -> (r: Result<(), i32>) {
    match nix::mount::umount(target) {
        Ok(()) => Ok(()),
        Err(e) => Err(e as i32),
    }
}

/// The idempotent mount primitive: if the target is already a mount
/// point it is unmounted first, the target directory is created with
/// its parents, and the mount is performed.
pub fn mount(
    blk: Option<&str>,
    target: &str,
    fstype: Option<FsType>,
    legacy_flags: bool,
) -> (r: Result<(), Error>)
    ensures
        (r matches Err(e) ==> e is Syscall || e is Io),
{
    let entries = match get_fstab_entries() {
        Ok(es) => es,
        Err(e) => {
            return Err(e);
        },
    };
    if any_mountpoint(&entries, target) {
        match sys_umount(target) {
            Ok(()) => {},
            Err(e) => {
                return Err(Error::Syscall { errno: e });
            },
        }
    }
    match create_dir_all(target) {
        Ok(()) => {},
        Err(e) => {
            return Err(Error::Syscall { errno: e });
        },
    }
    let ty: Option<&str> = match &fstype {
        Some(t) => Some(t.name()),
        None => None,
    };
    match sys_mount(blk, target, ty, legacy_flags) {
        Ok(()) => Ok(()),
        Err(e) => Err(Error::Syscall { errno: e }),
    }
}

/// A plain unmount of one target.
pub fn unmount(target: &str) -> (r: Result<(), Error>)
    ensures
        (r matches Err(e) ==> e is Syscall),
{
    match sys_umount(target) {
        Ok(()) => Ok(()),
        Err(e) => Err(Error::Syscall { errno: e }),
    }
}

/// Unmount every live mount point below `target`, children before
/// parents, stopping at the first error.
pub fn unmount_all(target: &str) -> (r: Result<(), Error>)
    ensures
        (r matches Err(e) ==> e is Syscall || e is Io),
{
    let entries = match get_fstab_entries() {
        Ok(es) => es,
        Err(e) => {
            return Err(e);
        },
    };
    let plan = unmount_plan(&entries, target);
    match unmount_list(&plan) {
        None => Ok(()),
        Some(e) => Err(Error::Syscall { errno: e }),
    }
}

/// Unmount the listed targets in order, stopping at the first error;
/// the first errno comes back.
pub fn unmount_list(targets: &Vec<String>) -> (r: Option<i32>) {
    let mut i: usize = 0;
    while i < targets.len()
        decreases targets.len() - i,
    {
        match sys_umount(targets[i].as_str()) {
            Ok(()) => {},
            Err(e) => {
                return Some(e);
            },
        }
        i += 1;
    }
    None
}

/// Unmount the listed targets in order, keeping going on errors: the
/// best-effort cleanup.
pub fn unmount_each(targets: &Vec<String>) {
    let mut i: usize = 0;
    while i < targets.len()
        decreases targets.len() - i,
    {
        let _ = sys_umount(targets[i].as_str());
        i += 1;
    }
}

/// Perform one mount described by a `MountSpec`.
pub fn mount_spec(m: &MountSpec) -> (r: Result<(), Error>)
    ensures
        (r matches Err(e) ==> e is Syscall || e is Io),
{
    let src: Option<&str> = match &m.source {
        Some(s) => Some(s.as_str()),
        None => None,
    };
    let entries = match get_fstab_entries() {
        Ok(es) => es,
        Err(e) => {
            return Err(e);
        },
    };
    if any_mountpoint(&entries, m.target.as_str()) {
        match sys_umount(m.target.as_str()) {
            Ok(()) => {},
            Err(e) => {
                return Err(Error::Syscall { errno: e });
            },
        }
    }
    match create_dir_all(m.target.as_str()) {
        Ok(()) => {},
        Err(e) => {
            return Err(Error::Syscall { errno: e });
        },
    }
    match sys_mount(src, m.target.as_str(), Some(m.fstype.as_str()), m.legacy_flags) {
        Ok(()) => Ok(()),
        Err(e) => Err(Error::Syscall { errno: e }),
    }
}

/// Perform the listed mounts in order, stopping at the first error.
pub fn mount_list(specs: &Vec<MountSpec>) -> (r: Option<i32>) {
    let mut i: usize = 0;
    while i < specs.len()
        decreases specs.len() - i,
    {
        match mount_spec(&specs[i]) {
            Ok(()) => {},
            Err(e) => {
                return match e {
                    Error::Syscall { errno } => Some(errno),
                    _ => Some(-1),
                };
            },
        }
        i += 1;
    }
    None
}

} // verus!
