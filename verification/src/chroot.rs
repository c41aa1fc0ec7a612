//! The chroot lifecycle: which virtual filesystems are bound into a
//! target before commands run inside it, and in which order they are
//! released afterwards.

use vstd::prelude::*;
use crate::effect::{view_mounts, MountSpec, MountSpecV};
use crate::error::Error;
use crate::pathutil::{join_path, spec_join_path};
use crate::strutil::push_string;

verus! {

/// One virtual filesystem of the chroot, as a mount below `target`:
/// no source device, the historical flag set off.
pub open spec fn spec_vfs_mount(target: Seq<char>, sub: Seq<char>, fstype: Seq<char>) -> MountSpecV {
    MountSpecV {
        source: None,
        target: spec_join_path(target, sub),
        fstype: fstype,
        legacy_flags: false,
    }
}

/// The virtual filesystems bound into a chroot, in mount order:
/// `tmp`, `run`, `proc`, `sys`, `dev`, `dev/pts`, `dev/shm`,
/// `sys/firmware/efi`.
pub open spec fn spec_chroot_mount_plan(target: Seq<char>) -> Seq<MountSpecV> {
    seq![
        spec_vfs_mount(target, "tmp"@, "tmpfs"@),
        spec_vfs_mount(target, "run"@, "tmpfs"@),
        spec_vfs_mount(target, "proc"@, "proc"@),
        spec_vfs_mount(target, "sys"@, "sysfs"@),
        spec_vfs_mount(target, "dev"@, "devtmpfs"@),
        spec_vfs_mount(target, "dev/pts"@, "devpts"@),
        spec_vfs_mount(target, "dev/shm"@, "tmpfs"@),
        spec_vfs_mount(target, "sys/firmware/efi"@, "efivarfs"@),
    ]
}

/// The same paths in reverse order, for the best-effort cleanup.
pub open spec fn spec_chroot_unmount_plan(target: Seq<char>) -> Seq<Seq<char>> {
    seq![
        spec_join_path(target, "sys/firmware/efi"@),
        spec_join_path(target, "dev/shm"@),
        spec_join_path(target, "dev/pts"@),
        spec_join_path(target, "dev"@),
        spec_join_path(target, "sys"@),
        spec_join_path(target, "proc"@),
        spec_join_path(target, "run"@),
        spec_join_path(target, "tmp"@),
    ]
}

fn vfs_mount(target: &str, sub: &str, fstype: &str) -> (m: MountSpec)
    ensures
        m@ == spec_vfs_mount(target@, sub@, fstype@),
{
    MountSpec {
        source: None,
        target: join_path(target, sub),
        fstype: fstype.to_owned(),
        legacy_flags: false,
    }
}

/// The mounts that prepare a chroot at `target`, matching
/// `spec_chroot_mount_plan`.
pub fn chroot_mount_plan(target: &str) -> (r: Vec<MountSpec>)
    ensures
        view_mounts(r@) == spec_chroot_mount_plan(target@),
{
    let mut r: Vec<MountSpec> = Vec::new();
    r.push(vfs_mount(target, "tmp", "tmpfs"));
    r.push(vfs_mount(target, "run", "tmpfs"));
    r.push(vfs_mount(target, "proc", "proc"));
    r.push(vfs_mount(target, "sys", "sysfs"));
    r.push(vfs_mount(target, "dev", "devtmpfs"));
    r.push(vfs_mount(target, "dev/pts", "devpts"));
    r.push(vfs_mount(target, "dev/shm", "tmpfs"));
    r.push(vfs_mount(target, "sys/firmware/efi", "efivarfs"));
    proof {
        assert(view_mounts(r@) =~~= spec_chroot_mount_plan(target@));
    }
    r
}

/// The paths that a chroot cleanup unmounts, in reverse mount order,
/// matching `spec_chroot_unmount_plan`.
pub fn chroot_unmount_plan(target: &str) -> (r: Vec<String>)
    ensures
        r.deep_view() == spec_chroot_unmount_plan(target@),
{
    let mut r: Vec<String> = Vec::new();
    push_string(&mut r, join_path(target, "sys/firmware/efi"));
    push_string(&mut r, join_path(target, "dev/shm"));
    push_string(&mut r, join_path(target, "dev/pts"));
    push_string(&mut r, join_path(target, "dev"));
    push_string(&mut r, join_path(target, "sys"));
    push_string(&mut r, join_path(target, "proc"));
    push_string(&mut r, join_path(target, "run"));
    push_string(&mut r, join_path(target, "tmp"));
    proof {
        assert(r.deep_view() =~~= spec_chroot_unmount_plan(target@));
    }
    r
}

/// Bind the virtual filesystems into `target`, in mount order; each
/// mount is idempotent, and the first failure aborts.
pub fn prepare_chroot(target: &str) -> (r: Result<(), Error>)
    ensures
        (r matches Err(e) ==> e is Syscall),
{
    let plan = chroot_mount_plan(target);
    match crate::syscall::mount_list(&plan) {
        None => Ok(()),
        Some(e) => Err(Error::Syscall { errno: e }),
    }
}

/// Release the virtual filesystems of `target` in reverse order;
/// failures are tolerated so the cleanup makes maximum progress.
pub fn cleanup_chroot(target: &str) -> (r: Result<(), Error>)
    ensures
        r is Ok,
{
    let plan = chroot_unmount_plan(target);
    crate::syscall::unmount_each(&plan);
    Ok(())
}

} // verus!
