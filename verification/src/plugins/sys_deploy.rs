//! Configuration of the system deployer plugin.

use vstd::prelude::*;
use crate::chroot::{
    chroot_mount_plan, chroot_unmount_plan, spec_chroot_mount_plan, spec_chroot_unmount_plan,
};
use crate::effect::{
    view_cmds, view_mounts, Action, CmdSpec, CmdSpecV, Event, ExtractSpec, ExtractSpecV, MountSpec,
    MountSpecV, Step,
};
use crate::error::Error;
use crate::fstab::{
    any_mountpoint, select_mounts_by_device, spec_any_mountpoint, spec_dev_fuzzy,
    spec_mount_points, spec_select_by_dev, spec_unmount_plan, unmount_plan, view_entries,
};
use crate::parted::{parted_partition_uuids, spec_parted_uuids};
use crate::pathutil::{join_path, spec_join_path};
use crate::plugins::tar;
use crate::plugins::tar::Compression;
use crate::plugins::{Distro, Globals, Plugin};
use crate::strutil::{push_str, spec_starts_with, starts_with};

verus! {

/// What every deployment flavour needs: the disk to provision, the
/// mount point for the new root, and the distribution being installed.
#[derive(Debug)]
pub struct CommonConfig {
    pub disk: String,
    pub mount: String,
    pub distro: Distro,
}

/// The mathematical value of a common deployment configuration.
#[verifier::ext_equal]
pub struct CommonConfigV {
    pub disk: Seq<char>,
    pub mount: Seq<char>,
    pub distro: Distro,
}

impl View for CommonConfig {
    type V = CommonConfigV;

    open spec fn view(&self) -> CommonConfigV {
        CommonConfigV { disk: self.disk@, mount: self.mount@, distro: self.distro }
    }
}

impl Clone for CommonConfig {
    fn clone(&self) -> (r: Self)
        ensures
            r@ == self@,
    {
        CommonConfig {
            disk: self.disk.clone(),
            mount: self.mount.clone(),
            distro: self.distro,
        }
    }
}

/// The deployment flavours; a tar stream is the only one.
#[derive(Debug)]
pub enum Config {
    Tar(tar::Config),
}

/// The mathematical value of a deployer configuration.
#[verifier::ext_equal]
pub enum ConfigV {
    Tar(tar::ConfigV),
}

impl View for Config {
    type V = ConfigV;

    open spec fn view(&self) -> ConfigV {
        match self {
            Config::Tar(c) => ConfigV::Tar(c@),
        }
    }
}

impl Clone for Config {
    fn clone(&self) -> (r: Self)
        ensures
            r@ == self@,
    {
        match self {
            Config::Tar(c) => Config::Tar(c.clone()),
        }
    }
}

// ------------------------------------------------------------------
// The disk-preparation and deployment machine.
// ------------------------------------------------------------------

/// Which device managers refresh device nodes for a distribution:
/// `(use_mdev, use_udev)`.  Alpine relies on mdev, the other known
/// distributions on udev, an unknown one on neither.
pub open spec fn spec_dev_managers(hint: Option<Distro>) -> (bool, bool) {
    match hint {
        Some(Distro::Alpine) => (true, false),
        Some(_) => (false, true),
        None => (false, false),
    }
}

/// Executable form of `spec_dev_managers`.
pub fn dev_managers(hint: Option<Distro>) -> (r: (bool, bool))
    ensures
        r == spec_dev_managers(hint),
{
    match hint {
        Some(Distro::Alpine) => (true, false),
        Some(_) => (false, true),
        None => (false, false),
    }
}

/// A command without stdin or chroot.
pub open spec fn spec_plain_cmd(argv: Seq<Seq<char>>) -> CmdSpecV {
    CmdSpecV { argv, stdin: None, chroot: None }
}

/// A command run inside a chroot.
pub open spec fn spec_chrooted_cmd(argv: Seq<Seq<char>>, root: Seq<char>) -> CmdSpecV {
    CmdSpecV { argv, stdin: None, chroot: Some(root) }
}

/// The pinned parted invocation that lays out the GPT: a FAT32 ESP from
/// 1 MiB to 512 MiB flagged `esp`, an ext4 boot partition to 2048 MiB,
/// and an ext4 root partition to the end of the disk.
pub open spec fn parted_create_argv(disk: Seq<char>) -> Seq<Seq<char>> {
    seq![
        "parted"@, disk, "--script"@, "--fix"@, "--align"@, "optimal"@, "mklabel"@, "gpt"@,
        "mkpart"@, "primary"@, "fat32"@, "1MiB"@, "512MiB"@, "mkpart"@, "primary"@, "ext4"@,
        "512MiB"@, "2048MiB"@, "mkpart"@, "primary"@, "ext4"@, "2048MiB"@, "100%"@, "set"@, "1"@,
        "esp"@, "on"@,
    ]
}

pub open spec fn partprobe_argv(disk: Seq<char>) -> Seq<Seq<char>> {
    seq!["partprobe"@, disk]
}

pub open spec fn mdev_argv() -> Seq<Seq<char>> {
    seq!["mdev"@, "-s"@]
}

pub open spec fn udevadm_argv() -> Seq<Seq<char>> {
    seq!["udevadm"@, "trigger"@, "--type=all"@, "--settle"@]
}

pub open spec fn parted_print_argv(disk: Seq<char>) -> Seq<Seq<char>> {
    seq!["parted"@, disk, "--script"@, "print"@, "-j"@]
}

pub open spec fn mkfs_vfat_argv(part: Seq<char>) -> Seq<Seq<char>> {
    seq!["mkfs.vfat"@, "-F"@, "32"@, "-n"@, "EFI"@, part]
}

pub open spec fn mkfs_boot_argv(part: Seq<char>) -> Seq<Seq<char>> {
    seq!["mkfs.ext4"@, "-L"@, "boot"@, "-O"@, "^metadata_csum_seed"@, "-O"@, "^orphan_file"@, part]
}

pub open spec fn mkfs_root_argv(part: Seq<char>) -> Seq<Seq<char>> {
    seq!["mkfs.ext4"@, "-L"@, "root"@, "-O"@, "^orphan_file"@, part]
}

/// The device node a partition appears under once settled.
pub open spec fn spec_partuuid_path(u: Seq<char>) -> Seq<char> {
    "/dev/disk/by-partuuid/"@ + u
}

/// A mount of a formatted partition, without the historical flag set.
pub open spec fn spec_part_mount(src: Seq<char>, target: Seq<char>, fstype: Seq<char>) -> MountSpecV {
    MountSpecV { source: Some(src), target, fstype, legacy_flags: false }
}

/// The fstab written under the new root: the three partitions by
/// PARTUUID, root checked first, boot and ESP second.
pub open spec fn spec_fstab_content(root_u: Seq<char>, boot_u: Seq<char>, esp_u: Seq<char>) -> Seq<
    char,
> {
    "PARTUUID="@ + root_u + " / ext4 defaults 0 1\nPARTUUID="@ + boot_u
        + " /boot ext4 defaults 0 2\nPARTUUID="@ + esp_u + " /boot/efi vfat defaults 0 2\n"@
}

/// The pinned extraction request: the source is remote exactly when the
/// url names an http or https scheme, and the unpacking policy keeps
/// ownership, permissions, mtimes and extended attributes, follows
/// external symlinks, honours zero blocks, and overwrites on conflict.
pub open spec fn spec_extract(url: Seq<char>, dest: Seq<char>, comp: Option<Compression>) -> ExtractSpecV {
    ExtractSpecV {
        url,
        dest,
        compression: comp,
        remote: spec_starts_with(url, "http://"@) || spec_starts_with(url, "https://"@),
        allow_external_symlinks: true,
        ignore_zeros: false,
        overwrite: true,
        preserve_mtime: true,
        preserve_permissions: true,
        preserve_ownerships: true,
        unpack_xattrs: true,
    }
}

/// The post-install commands run inside the new root on Ubuntu.
pub open spec fn spec_postinst_cmds(root: Seq<char>) -> Seq<CmdSpecV> {
    seq![
        spec_chrooted_cmd(seq!["update-initramfs"@, "-c"@, "-k"@, "all"@], root),
        spec_chrooted_cmd(seq!["grub-install"@, "--efi-directory=/boot/efi"@, "--recheck"@], root),
        spec_chrooted_cmd(seq!["update-grub"@], root),
    ]
}

fn plain_cmd(argv: Vec<String>) -> (c: CmdSpec)
    ensures
        c@ == spec_plain_cmd(argv.deep_view()),
{
    CmdSpec { argv, stdin: None, chroot: None }
}

fn parted_create_cmd(disk: &str) -> (c: CmdSpec)
    ensures
        c@ == spec_plain_cmd(parted_create_argv(disk@)),
{
    let mut a: Vec<String> = Vec::new();
    push_str(&mut a, "parted");
    push_str(&mut a, disk);
    push_str(&mut a, "--script");
    push_str(&mut a, "--fix");
    push_str(&mut a, "--align");
    push_str(&mut a, "optimal");
    push_str(&mut a, "mklabel");
    push_str(&mut a, "gpt");
    push_str(&mut a, "mkpart");
    push_str(&mut a, "primary");
    push_str(&mut a, "fat32");
    push_str(&mut a, "1MiB");
    push_str(&mut a, "512MiB");
    push_str(&mut a, "mkpart");
    push_str(&mut a, "primary");
    push_str(&mut a, "ext4");
    push_str(&mut a, "512MiB");
    push_str(&mut a, "2048MiB");
    push_str(&mut a, "mkpart");
    push_str(&mut a, "primary");
    push_str(&mut a, "ext4");
    push_str(&mut a, "2048MiB");
    push_str(&mut a, "100%");
    push_str(&mut a, "set");
    push_str(&mut a, "1");
    push_str(&mut a, "esp");
    push_str(&mut a, "on");
    proof {
        assert(a.deep_view() =~~= parted_create_argv(disk@));
    }
    plain_cmd(a)
}

fn partprobe_cmd(disk: &str) -> (c: CmdSpec)
    ensures
        c@ == spec_plain_cmd(partprobe_argv(disk@)),
{
    let mut a: Vec<String> = Vec::new();
    push_str(&mut a, "partprobe");
    push_str(&mut a, disk);
    proof {
        assert(a.deep_view() =~~= partprobe_argv(disk@));
    }
    plain_cmd(a)
}

fn mdev_cmd() -> (c: CmdSpec)
    ensures
        c@ == spec_plain_cmd(mdev_argv()),
{
    let mut a: Vec<String> = Vec::new();
    push_str(&mut a, "mdev");
    push_str(&mut a, "-s");
    proof {
        assert(a.deep_view() =~~= mdev_argv());
    }
    plain_cmd(a)
}

fn udevadm_cmd() -> (c: CmdSpec)
    ensures
        c@ == spec_plain_cmd(udevadm_argv()),
{
    let mut a: Vec<String> = Vec::new();
    push_str(&mut a, "udevadm");
    push_str(&mut a, "trigger");
    push_str(&mut a, "--type=all");
    push_str(&mut a, "--settle");
    proof {
        assert(a.deep_view() =~~= udevadm_argv());
    }
    plain_cmd(a)
}

fn parted_print_cmd(disk: &str) -> (c: CmdSpec)
    ensures
        c@ == spec_plain_cmd(parted_print_argv(disk@)),
{
    let mut a: Vec<String> = Vec::new();
    push_str(&mut a, "parted");
    push_str(&mut a, disk);
    push_str(&mut a, "--script");
    push_str(&mut a, "print");
    push_str(&mut a, "-j");
    proof {
        assert(a.deep_view() =~~= parted_print_argv(disk@));
    }
    plain_cmd(a)
}

fn mkfs_vfat_cmd(part: &str) -> (c: CmdSpec)
    ensures
        c@ == spec_plain_cmd(mkfs_vfat_argv(part@)),
{
    let mut a: Vec<String> = Vec::new();
    push_str(&mut a, "mkfs.vfat");
    push_str(&mut a, "-F");
    push_str(&mut a, "32");
    push_str(&mut a, "-n");
    push_str(&mut a, "EFI");
    push_str(&mut a, part);
    proof {
        assert(a.deep_view() =~~= mkfs_vfat_argv(part@));
    }
    plain_cmd(a)
}

fn mkfs_boot_cmd(part: &str) -> (c: CmdSpec)
    ensures
        c@ == spec_plain_cmd(mkfs_boot_argv(part@)),
{
    let mut a: Vec<String> = Vec::new();
    push_str(&mut a, "mkfs.ext4");
    push_str(&mut a, "-L");
    push_str(&mut a, "boot");
    push_str(&mut a, "-O");
    push_str(&mut a, "^metadata_csum_seed");
    push_str(&mut a, "-O");
    push_str(&mut a, "^orphan_file");
    push_str(&mut a, part);
    proof {
        assert(a.deep_view() =~~= mkfs_boot_argv(part@));
    }
    plain_cmd(a)
}

fn mkfs_root_cmd(part: &str) -> (c: CmdSpec)
    ensures
        c@ == spec_plain_cmd(mkfs_root_argv(part@)),
{
    let mut a: Vec<String> = Vec::new();
    push_str(&mut a, "mkfs.ext4");
    push_str(&mut a, "-L");
    push_str(&mut a, "root");
    push_str(&mut a, "-O");
    push_str(&mut a, "^orphan_file");
    push_str(&mut a, part);
    proof {
        assert(a.deep_view() =~~= mkfs_root_argv(part@));
    }
    plain_cmd(a)
}

/// The device node of a partition UUID, matching `spec_partuuid_path`.
pub fn partuuid_path(u: &str) -> (r: String)
    ensures
        r@ == spec_partuuid_path(u@),
{
    let mut s = String::from_str("/dev/disk/by-partuuid/");
    s.append(u);
    s
}

fn part_mount(src: String, target: String, fstype: &str) -> (m: MountSpec)
    ensures
        m@ == spec_part_mount(src@, target@, fstype@),
{
    MountSpec { source: Some(src), target, fstype: fstype.to_owned(), legacy_flags: false }
}

/// The fstab text for the new root, matching `spec_fstab_content`.
pub fn fstab_content(root_u: &str, boot_u: &str, esp_u: &str) -> (r: String)
    ensures
        r@ == spec_fstab_content(root_u@, boot_u@, esp_u@),
{
    let mut s = String::from_str("PARTUUID=");
    s.append(root_u);
    s.append(" / ext4 defaults 0 1\nPARTUUID=");
    s.append(boot_u);
    s.append(" /boot ext4 defaults 0 2\nPARTUUID=");
    s.append(esp_u);
    s.append(" /boot/efi vfat defaults 0 2\n");
    s
}

/// The extraction request for a tar source, matching `spec_extract`.
pub fn extract_request(url: &str, dest: &str, comp: Option<Compression>) -> (e: ExtractSpec)
    ensures
        e@ == spec_extract(url@, dest@, comp),
{
    let remote = starts_with(url, "http://") || starts_with(url, "https://");
    ExtractSpec {
        url: url.to_owned(),
        dest: dest.to_owned(),
        compression: comp,
        remote,
        allow_external_symlinks: true,
        ignore_zeros: false,
        overwrite: true,
        preserve_mtime: true,
        preserve_permissions: true,
        preserve_ownerships: true,
        unpack_xattrs: true,
    }
}

/// The post-install commands, matching `spec_postinst_cmds`.
pub fn postinst_cmds(root: &str) -> (r: Vec<CmdSpec>)
    ensures
        view_cmds(r@) == spec_postinst_cmds(root@),
{
    let mut a: Vec<String> = Vec::new();
    push_str(&mut a, "update-initramfs");
    push_str(&mut a, "-c");
    push_str(&mut a, "-k");
    push_str(&mut a, "all");
    let c1 = CmdSpec { argv: a, stdin: None, chroot: Some(root.to_owned()) };
    let mut b: Vec<String> = Vec::new();
    push_str(&mut b, "grub-install");
    push_str(&mut b, "--efi-directory=/boot/efi");
    push_str(&mut b, "--recheck");
    let c2 = CmdSpec { argv: b, stdin: None, chroot: Some(root.to_owned()) };
    let mut d: Vec<String> = Vec::new();
    push_str(&mut d, "update-grub");
    let c3 = CmdSpec { argv: d, stdin: None, chroot: Some(root.to_owned()) };
    let mut r: Vec<CmdSpec> = Vec::new();
    r.push(c1);
    r.push(c2);
    r.push(c3);
    proof {
        assert(view_cmds(r@) =~~= spec_postinst_cmds(root@));
    }
    r
}

/// Where the deployment machine stands between two effects.
#[derive(Debug)]
pub enum Phase {
    Begin,
    CanonDisk,
    TargetScan { c_disk: String },
    TargetUnmount { c_disk: String },
    DevQuery { c_disk: String },
    MpScan { mps: Vec<String>, idx: usize },
    MpUnmount { mps: Vec<String>, idx: usize },
    PartedCreate,
    Partprobe,
    Mdev,
    Udevadm,
    PartPrint,
    AwaitDev { uuids: Vec<String>, idx: usize },
    Format { uuids: Vec<String>, idx: usize },
    MountRoot { uuids: Vec<String> },
    MountBoot { uuids: Vec<String> },
    MountEsp,
    Extracting,
    FstabQuery,
    FstabWrite,
    PostMount,
    PostRun,
    PostCleanup,
    Halted,
}

/// Every effect the deployer may request for a given configuration:
/// the pinned partitioning, refresh, format, mount, extraction, fstab
/// and post-install steps, and nothing else.
pub open spec fn sd_action_allowed(g: Globals, cv: ConfigV, a: Action) -> bool {
    match cv {
        ConfigV::Tar(tc) => {
            let disk = tc.common.disk;
            let target = tc.common.mount;
            match a {
                Action::Canonicalize(p) => p@ == disk,
                Action::ReadMounts => true,
                Action::UnmountAll(_) => true,
                Action::Run(c) => c@ == spec_plain_cmd(parted_create_argv(disk)) || c@
                    == spec_plain_cmd(partprobe_argv(disk)) || (spec_dev_managers(
                    g.distro_hint,
                ).0 && c@ == spec_plain_cmd(mdev_argv())) || (spec_dev_managers(g.distro_hint).1
                    && c@ == spec_plain_cmd(udevadm_argv())) || c@ == spec_plain_cmd(
                    parted_print_argv(disk),
                ) || (exists|u: Seq<char>|
                    c@ == spec_plain_cmd(#[trigger] mkfs_vfat_argv(spec_partuuid_path(u)))) || (
                exists|u: Seq<char>|
                    c@ == spec_plain_cmd(#[trigger] mkfs_boot_argv(spec_partuuid_path(u)))) || (
                exists|u: Seq<char>|
                    c@ == spec_plain_cmd(#[trigger] mkfs_root_argv(spec_partuuid_path(u)))),
                Action::WaitReady(p) => exists|u: Seq<char>| p@ == #[trigger] spec_partuuid_path(u),
                Action::Mount(m) => (exists|u: Seq<char>|
                    m@ == spec_part_mount(#[trigger] spec_partuuid_path(u), target, "ext4"@)) || (
                exists|u: Seq<char>|
                    m@ == spec_part_mount(
                        #[trigger] spec_partuuid_path(u),
                        spec_join_path(target, "boot"@),
                        "ext4"@,
                    )) || (exists|u: Seq<char>|
                    m@ == spec_part_mount(
                        #[trigger] spec_partuuid_path(u),
                        spec_join_path(target, "boot/efi"@),
                        "vfat"@,
                    )),
                Action::Extract(e) => e@ == spec_extract(tc.url, target, tc.compression),
                Action::WriteFile(p, s) => p@ == spec_join_path(target, "etc/fstab"@) && (exists|
                    u0: Seq<char>,
                    u1: Seq<char>,
                    u2: Seq<char>,
                |
                    s@ == #[trigger] spec_fstab_content(u0, u1, u2)),
                Action::MountAll(v) => view_mounts(v@) == spec_chroot_mount_plan(target),
                Action::RunAll(v) => view_cmds(v@) == spec_postinst_cmds(target),
                Action::UnmountEach(v) => v.deep_view() == spec_chroot_unmount_plan(target),
                _ => false,
            }
        },
    }
}


/// A failed command halts the machine carrying the command's own
/// exit code and output.
pub open spec fn sd_cmd_failed(st: Step, post: Phase, code: i32, out: String, err: String) -> bool {
    (st matches Step::Fail(e) && (e matches Error::CommandFailed { exit_code, stdout, stderr }
        && exit_code == code && stdout@ == out@ && stderr@ == err@)) && post is Halted
}

/// A failed mount or unmount halts the machine carrying the errno.
pub open spec fn sd_syscall_failed(st: Step, post: Phase, e0: i32) -> bool {
    (st matches Step::Fail(er) && (er matches Error::Syscall { errno } && errno == e0)) && post
        is Halted
}

/// A broken invariant halts the machine.
pub open spec fn sd_inv_halt(st: Step, post: Phase) -> bool {
    (st matches Step::Fail(e) && e is Invariant) && post is Halted
}

/// A failed read or parse halts the machine.
pub open spec fn sd_io_halt(st: Step, post: Phase) -> bool {
    (st matches Step::Fail(e) && e is Io) && post is Halted
}

/// The full transition relation of the deployment protocol: for every
/// (phase, event) pair, exactly which effect is requested next, in the
/// pinned order partitioning, refresh, report, settle-and-format (ESP,
/// boot, root), mount (root, boot, ESP), extraction, fstab, and the
/// Ubuntu post-install bracket.
pub open spec fn sd_next(
    g: Globals,
    cv: ConfigV,
    pre: Phase,
    a0: bool,
    ev: Event,
    post: Phase,
    a1: bool,
    st: Step,
) -> bool {
    match cv {
        ConfigV::Tar(tc) => {
            let disk = tc.common.disk;
            let target = tc.common.mount;
            match (pre, ev) {
                (Phase::Begin, Event::Start) => a1 == a0 && (if a0 {
                    st is Done && post is Begin
                } else {
                    post is CanonDisk && (st matches Step::Do(Action::Canonicalize(p)) && p@
                        == disk)
                }),
                (Phase::CanonDisk, Event::Canon { path }) => a1 == a0 && (match path {
                    None => sd_io_halt(st, post),
                    Some(c) => (post matches Phase::TargetScan { c_disk } && c_disk@ == c@) && st
                        matches Step::Do(Action::ReadMounts),
                }),
                (Phase::TargetScan { c_disk }, Event::MountsRead { entries, .. }) => a1 == a0 && (
                if spec_any_mountpoint(view_entries(entries@), target) {
                    (post matches Phase::TargetUnmount { c_disk: c2 } && c2@ == c_disk@) && (st
                        matches Step::Do(Action::UnmountAll(plan)) && plan.deep_view()
                        == spec_unmount_plan(view_entries(entries@), target))
                } else {
                    (post matches Phase::DevQuery { c_disk: c2 } && c2@ == c_disk@) && st matches
                        Step::Do(Action::ReadMounts)
                }),
                (Phase::TargetUnmount { c_disk }, Event::Mounted { errno }) => a1 == a0 && (match errno {
                    Some(e) => sd_syscall_failed(st, post, e),
                    None => (post matches Phase::DevQuery { c_disk: c2 } && c2@ == c_disk@) && st
                        matches Step::Do(Action::ReadMounts),
                }),
                (Phase::DevQuery { c_disk }, Event::MountsRead { entries, canon_devices }) => a1
                    == a0 && (if canon_devices.len() != entries.len() {
                    sd_inv_halt(st, post)
                } else {
                    let mps = spec_mount_points(
                        spec_select_by_dev(
                            view_entries(entries@),
                            canon_devices.deep_view(),
                            c_disk@,
                            spec_dev_fuzzy(disk),
                        ),
                    );
                    if mps.len() == 0 {
                        post is PartedCreate && (st matches Step::Do(Action::Run(c)) && c@
                            == spec_plain_cmd(parted_create_argv(disk)))
                    } else {
                        (post matches Phase::MpScan { mps: m, idx } && m.deep_view() == mps && idx
                            == 0) && st matches Step::Do(Action::ReadMounts)
                    }
                }),
                (Phase::MpScan { mps, idx }, Event::MountsRead { entries, .. }) => a1 == a0 && (
                if idx >= mps.len() {
                    sd_inv_halt(st, post)
                } else {
                    (post matches Phase::MpUnmount { mps: m2, idx: i2 } && m2.deep_view()
                        == mps.deep_view() && i2 == idx) && (st matches Step::Do(
                        Action::UnmountAll(plan),
                    ) && plan.deep_view() == spec_unmount_plan(
                        view_entries(entries@),
                        mps[idx as int]@,
                    ))
                }),
                (Phase::MpUnmount { mps, idx }, Event::Mounted { errno }) => a1 == a0 && (match errno {
                    Some(e) => sd_syscall_failed(st, post, e),
                    None => if idx >= mps.len() {
                        sd_inv_halt(st, post)
                    } else if idx + 1 < mps.len() {
                        (post matches Phase::MpScan { mps: m2, idx: i2 } && m2.deep_view()
                            == mps.deep_view() && i2 == idx + 1) && st matches Step::Do(
                            Action::ReadMounts,
                        )
                    } else {
                        post is PartedCreate && (st matches Step::Do(Action::Run(c)) && c@
                            == spec_plain_cmd(parted_create_argv(disk)))
                    },
                }),
                (Phase::PartedCreate, Event::Ran { exit_code, stdout, stderr }) => a1 == a0 && (
                if exit_code != 0 {
                    sd_cmd_failed(st, post, exit_code, stdout, stderr)
                } else {
                    post is Partprobe && (st matches Step::Do(Action::Run(c)) && c@
                        == spec_plain_cmd(partprobe_argv(disk)))
                }),
                (Phase::Partprobe, Event::Ran { exit_code, stdout, stderr }) => a1 == a0 && (
                if exit_code != 0 {
                    sd_cmd_failed(st, post, exit_code, stdout, stderr)
                } else if spec_dev_managers(g.distro_hint).0 {
                    post is Mdev && (st matches Step::Do(Action::Run(c)) && c@ == spec_plain_cmd(
                        mdev_argv(),
                    ))
                } else if spec_dev_managers(g.distro_hint).1 {
                    post is Udevadm && (st matches Step::Do(Action::Run(c)) && c@
                        == spec_plain_cmd(udevadm_argv()))
                } else {
                    post is PartPrint && (st matches Step::Do(Action::Run(c)) && c@
                        == spec_plain_cmd(parted_print_argv(disk)))
                }),
                (Phase::Mdev, Event::Ran { exit_code, stdout, stderr }) => a1 == a0 && (if exit_code
                    != 0 {
                    sd_cmd_failed(st, post, exit_code, stdout, stderr)
                } else if spec_dev_managers(g.distro_hint).1 {
                    post is Udevadm && (st matches Step::Do(Action::Run(c)) && c@
                        == spec_plain_cmd(udevadm_argv()))
                } else {
                    post is PartPrint && (st matches Step::Do(Action::Run(c)) && c@
                        == spec_plain_cmd(parted_print_argv(disk)))
                }),
                (Phase::Udevadm, Event::Ran { exit_code, stdout, stderr }) => a1 == a0 && (
                if exit_code != 0 {
                    sd_cmd_failed(st, post, exit_code, stdout, stderr)
                } else {
                    post is PartPrint && (st matches Step::Do(Action::Run(c)) && c@
                        == spec_plain_cmd(parted_print_argv(disk)))
                }),
                (Phase::PartPrint, Event::Ran { exit_code, stdout, stderr }) => a1 == a0 && (
                if exit_code != 0 {
                    sd_cmd_failed(st, post, exit_code, stdout, stderr)
                } else {
                    match spec_parted_uuids(stdout@) {
                        None => sd_io_halt(st, post),
                        Some(u) => if u.len() != 3 {
                            sd_inv_halt(st, post)
                        } else {
                            (post matches Phase::AwaitDev { uuids, idx } && uuids.deep_view() == u
                                && idx == 0) && (st matches Step::Do(Action::WaitReady(p)) && p@
                                == spec_partuuid_path(u[0]))
                        },
                    }
                }),
                (Phase::AwaitDev { uuids, idx }, Event::Ready { interrupted }) => a1 == a0 && (
                if interrupted {
                    (st matches Step::Fail(e) && e is Interrupted) && post is Halted
                } else if uuids.len() != 3 || idx >= 3 {
                    sd_inv_halt(st, post)
                } else {
                    (post matches Phase::Format { uuids: u2, idx: i2 } && u2.deep_view()
                        == uuids.deep_view() && i2 == idx) && (st matches Step::Do(Action::Run(c))
                        && c@ == spec_plain_cmd(
                        if idx == 0 {
                            mkfs_vfat_argv(spec_partuuid_path(uuids[idx as int]@))
                        } else if idx == 1 {
                            mkfs_boot_argv(spec_partuuid_path(uuids[idx as int]@))
                        } else {
                            mkfs_root_argv(spec_partuuid_path(uuids[idx as int]@))
                        },
                    ))
                }),
                (Phase::Format { uuids, idx }, Event::Ran { exit_code, stdout, stderr }) => a1
                    == a0 && (if exit_code != 0 {
                    sd_cmd_failed(st, post, exit_code, stdout, stderr)
                } else if uuids.len() != 3 || idx >= 3 {
                    sd_inv_halt(st, post)
                } else if idx < 2 {
                    (post matches Phase::AwaitDev { uuids: u2, idx: i2 } && u2.deep_view()
                        == uuids.deep_view() && i2 == idx + 1) && (st matches Step::Do(
                        Action::WaitReady(p),
                    ) && p@ == spec_partuuid_path(uuids[idx + 1]@))
                } else {
                    (post matches Phase::MountRoot { uuids: u2 } && u2.deep_view()
                        == uuids.deep_view()) && (st matches Step::Do(Action::Mount(m)) && m@
                        == spec_part_mount(spec_partuuid_path(uuids[2]@), target, "ext4"@))
                }),
                (Phase::MountRoot { uuids }, Event::Mounted { errno }) => a1 == a0 && (match errno {
                    Some(e) => sd_syscall_failed(st, post, e),
                    None => if uuids.len() != 3 {
                        sd_inv_halt(st, post)
                    } else {
                        (post matches Phase::MountBoot { uuids: u2 } && u2.deep_view()
                            == uuids.deep_view()) && (st matches Step::Do(Action::Mount(m)) && m@
                            == spec_part_mount(
                            spec_partuuid_path(uuids[1]@),
                            spec_join_path(target, "boot"@),
                            "ext4"@,
                        ))
                    },
                }),
                (Phase::MountBoot { uuids }, Event::Mounted { errno }) => a1 == a0 && (match errno {
                    Some(e) => sd_syscall_failed(st, post, e),
                    None => if uuids.len() != 3 {
                        sd_inv_halt(st, post)
                    } else {
                        post is MountEsp && (st matches Step::Do(Action::Mount(m)) && m@
                            == spec_part_mount(
                            spec_partuuid_path(uuids[0]@),
                            spec_join_path(target, "boot/efi"@),
                            "vfat"@,
                        ))
                    },
                }),
                (Phase::MountEsp, Event::Mounted { errno }) => a1 == a0 && (match errno {
                    Some(e) => sd_syscall_failed(st, post, e),
                    None => post is Extracting && (st matches Step::Do(Action::Extract(e2)) && e2@
                        == spec_extract(tc.url, target, tc.compression)),
                }),
                (Phase::Extracting, Event::Extracted { error }) => a1 == a0 && (match error {
                    Some(m) => (st matches Step::Fail(e) && (e matches Error::Io { msg } && msg@
                        == m@)) && post is Halted,
                    None => post is FstabQuery && (st matches Step::Do(Action::Run(c)) && c@
                        == spec_plain_cmd(parted_print_argv(disk))),
                }),
                (Phase::FstabQuery, Event::Ran { exit_code, stdout, stderr }) => a1 == a0 && (
                if exit_code != 0 {
                    sd_cmd_failed(st, post, exit_code, stdout, stderr)
                } else {
                    match spec_parted_uuids(stdout@) {
                        None => sd_io_halt(st, post),
                        Some(u) => if u.len() != 3 {
                            sd_inv_halt(st, post)
                        } else {
                            post is FstabWrite && (st matches Step::Do(Action::WriteFile(p, c))
                                && p@ == spec_join_path(target, "etc/fstab"@) && c@
                                == spec_fstab_content(u[2], u[1], u[0]))
                        },
                    }
                }),
                (Phase::FstabWrite, Event::Wrote { errno }) => match errno {
                    Some(_) => a1 == a0 && sd_io_halt(st, post),
                    None => if tc.common.distro == Distro::Ubuntu {
                        a1 == a0 && post is PostMount && (st matches Step::Do(Action::MountAll(v))
                            && view_mounts(v@) == spec_chroot_mount_plan(target))
                    } else {
                        a1 && st is Done && post is Begin
                    },
                },
                (Phase::PostMount, Event::Mounted { errno }) => a1 == a0 && (match errno {
                    Some(e) => sd_syscall_failed(st, post, e),
                    None => post is PostRun && (st matches Step::Do(Action::RunAll(v))
                        && view_cmds(v@) == spec_postinst_cmds(target)),
                }),
                (Phase::PostRun, Event::RanAll { failure }) => a1 == a0 && (match failure {
                    Some(f) => sd_cmd_failed(st, post, f.exit_code, f.stdout, f.stderr),
                    None => post is PostCleanup && (st matches Step::Do(Action::UnmountEach(v))
                        && v.deep_view() == spec_chroot_unmount_plan(target)),
                }),
                (Phase::PostCleanup, Event::Acked) => a1 && st is Done && post is Begin,
                _ => a1 == a0 && sd_inv_halt(st, post),
            }
        },
    }
}

/// A successful parted report whose partition count is not three.
pub open spec fn sd_bad_partition_report(ev: Event) -> bool {
    match ev {
        Event::Ran { exit_code, stdout, .. } => exit_code == 0 && (match spec_parted_uuids(
            stdout@,
        ) {
            Some(u) => u.len() != 3,
            None => false,
        }),
        _ => false,
    }
}

/// The system deployer: carries the effective globals of its recipe.
pub struct Context(pub Globals);

impl Plugin for Context {
    type Config = Config;

    type State = bool;

    open spec fn spec_done(s: &bool) -> bool {
        *s
    }

    fn done(s: &bool) -> (r: bool) {
        *s
    }
}

impl Context {
    /// One transition of the deployment protocol.
    ///
    /// The contract is the transition relation `sd_next`: for every
    /// phase and event it fixes the requested effect, the next phase
    /// and the applied flag, which forces the pinned order partition,
    /// refresh, report, settle-and-format, mount, extract, fstab,
    /// post-install.  On top of it: a deployment already applied
    /// finishes immediately without effects; the flag never goes back
    /// and turns true only at the two completion steps; every effect
    /// also satisfies `sd_action_allowed`; and a parted report with a
    /// partition count other than three halts the machine with an
    /// invariant violation before any format command can be issued.
    pub fn step(&self, config: &Config, applied: &mut bool, phase: Phase, ev: Event) -> (r: (
        Phase,
        Step,
    ))
        ensures
            *old(applied) ==> *final(applied),
            phase is Begin && ev is Start && *old(applied) ==> r.1 is Done && r.0 is Begin,
            (r.1 matches Step::Do(a) ==> sd_action_allowed(self.0, config@, a)),
            phase is PartPrint && sd_bad_partition_report(ev) ==> (r.1 matches Step::Fail(e)
                && e is Invariant) && r.0 is Halted,
            phase is Halted ==> !(r.1 is Do),
            *final(applied) && !*old(applied) ==> (phase is FstabWrite || phase is PostCleanup)
                && r.1 is Done,
            r.1 is Done ==> *final(applied),
            sd_next(self.0, config@, phase, *old(applied), ev, r.0, *final(applied), r.1),
    {
        let Config::Tar(tc) = config;
        let disk = tc.common.disk.as_str();
        let target = tc.common.mount.as_str();
        match (phase, ev) {
            (Phase::Begin, Event::Start) => {
                if *applied {
                    (Phase::Begin, Step::Done)
                } else {
                    (
                        Phase::CanonDisk,
                        Step::Do(Action::Canonicalize(tc.common.disk.clone())),
                    )
                }
            },
            (Phase::CanonDisk, Event::Canon { path }) => match path {
                None => (
                    Phase::Halted,
                    Step::Fail(
                        Error::Io { msg: String::from_str("cannot canonicalize the disk path") },
                    ),
                ),
                Some(c_disk) => (Phase::TargetScan { c_disk }, Step::Do(Action::ReadMounts)),
            },
            (Phase::TargetScan { c_disk }, Event::MountsRead { entries, .. }) => {
                if any_mountpoint(&entries, target) {
                    let plan = unmount_plan(&entries, target);
                    (Phase::TargetUnmount { c_disk }, Step::Do(Action::UnmountAll(plan)))
                } else {
                    (Phase::DevQuery { c_disk }, Step::Do(Action::ReadMounts))
                }
            },
            (Phase::TargetUnmount { c_disk }, Event::Mounted { errno }) => match errno {
                Some(e) => (Phase::Halted, Step::Fail(Error::Syscall { errno: e })),
                None => (Phase::DevQuery { c_disk }, Step::Do(Action::ReadMounts)),
            },
            (Phase::DevQuery { c_disk }, Event::MountsRead { entries, canon_devices }) => {
                if canon_devices.len() != entries.len() {
                    (
                        Phase::Halted,
                        Step::Fail(
                            Error::Invariant {
                                msg: String::from_str("mount snapshot out of shape"),
                            },
                        ),
                    )
                } else {
                    let hits = select_mounts_by_device(
                        &entries,
                        &canon_devices,
                        disk,
                        c_disk.as_str(),
                    );
                    let mut mps: Vec<String> = Vec::new();
                    let mut i: usize = 0;
                    proof {
                        assert(mps.deep_view() =~~= spec_mount_points(view_entries(hits@)).take(0));
                    }
                    while i < hits.len()
                        invariant
                            0 <= i <= hits.len(),
                            mps.deep_view() == spec_mount_points(view_entries(hits@)).take(i as int),
                        decreases hits.len() - i,
                    {
                        let ghost pre = mps.deep_view();
                        mps.push(hits[i].mount_point.clone());
                        proof {
                            assert(mps.deep_view() =~~= pre.push(
                                spec_mount_points(view_entries(hits@))[i as int],
                            ));
                            assert(mps.deep_view() =~~= spec_mount_points(view_entries(hits@)).take(
                                i + 1,
                            ));
                        }
                        i += 1;
                    }
                    proof {
                        assert(mps.deep_view() =~~= spec_mount_points(view_entries(hits@)));
                    }
                    if mps.len() == 0 {
                        (Phase::PartedCreate, Step::Do(Action::Run(parted_create_cmd(disk))))
                    } else {
                        (Phase::MpScan { mps, idx: 0 }, Step::Do(Action::ReadMounts))
                    }
                }
            },
            (Phase::MpScan { mps, idx }, Event::MountsRead { entries, .. }) => {
                if idx >= mps.len() {
                    (
                        Phase::Halted,
                        Step::Fail(
                            Error::Invariant { msg: String::from_str("unmount scan out of range") },
                        ),
                    )
                } else {
                    let plan = unmount_plan(&entries, mps[idx].as_str());
                    (Phase::MpUnmount { mps, idx }, Step::Do(Action::UnmountAll(plan)))
                }
            },
            (Phase::MpUnmount { mps, idx }, Event::Mounted { errno }) => match errno {
                Some(e) => (Phase::Halted, Step::Fail(Error::Syscall { errno: e })),
                None => {
                    if idx >= mps.len() {
                        (
                            Phase::Halted,
                            Step::Fail(
                                Error::Invariant {
                                    msg: String::from_str("unmount scan out of range"),
                                },
                            ),
                        )
                    } else if idx + 1 < mps.len() {
                        (Phase::MpScan { mps, idx: idx + 1 }, Step::Do(Action::ReadMounts))
                    } else {
                        (Phase::PartedCreate, Step::Do(Action::Run(parted_create_cmd(disk))))
                    }
                },
            },
            (Phase::PartedCreate, Event::Ran { exit_code, stdout, stderr }) => {
                if exit_code != 0 {
                    (Phase::Halted, Step::Fail(Error::CommandFailed { exit_code, stdout, stderr }))
                } else {
                    (Phase::Partprobe, Step::Do(Action::Run(partprobe_cmd(disk))))
                }
            },
            (Phase::Partprobe, Event::Ran { exit_code, stdout, stderr }) => {
                if exit_code != 0 {
                    (Phase::Halted, Step::Fail(Error::CommandFailed { exit_code, stdout, stderr }))
                } else {
                    let (use_mdev, use_udev) = dev_managers(self.0.distro_hint);
                    if use_mdev {
                        (Phase::Mdev, Step::Do(Action::Run(mdev_cmd())))
                    } else if use_udev {
                        (Phase::Udevadm, Step::Do(Action::Run(udevadm_cmd())))
                    } else {
                        (Phase::PartPrint, Step::Do(Action::Run(parted_print_cmd(disk))))
                    }
                }
            },
            (Phase::Mdev, Event::Ran { exit_code, stdout, stderr }) => {
                if exit_code != 0 {
                    (Phase::Halted, Step::Fail(Error::CommandFailed { exit_code, stdout, stderr }))
                } else {
                    let (_, use_udev) = dev_managers(self.0.distro_hint);
                    if use_udev {
                        (Phase::Udevadm, Step::Do(Action::Run(udevadm_cmd())))
                    } else {
                        (Phase::PartPrint, Step::Do(Action::Run(parted_print_cmd(disk))))
                    }
                }
            },
            (Phase::Udevadm, Event::Ran { exit_code, stdout, stderr }) => {
                if exit_code != 0 {
                    (Phase::Halted, Step::Fail(Error::CommandFailed { exit_code, stdout, stderr }))
                } else {
                    (Phase::PartPrint, Step::Do(Action::Run(parted_print_cmd(disk))))
                }
            },
            (Phase::PartPrint, Event::Ran { exit_code, stdout, stderr }) => {
                if exit_code != 0 {
                    (Phase::Halted, Step::Fail(Error::CommandFailed { exit_code, stdout, stderr }))
                } else {
                    match parted_partition_uuids(stdout.as_str()) {
                        None => (
                            Phase::Halted,
                            Step::Fail(
                                Error::Io { msg: String::from_str("unparseable parted report") },
                            ),
                        ),
                        Some(uuids) => {
                            if uuids.len() != 3 {
                                (
                                    Phase::Halted,
                                    Step::Fail(
                                        Error::Invariant {
                                            msg: String::from_str(
                                                "expected exactly three partitions",
                                            ),
                                        },
                                    ),
                                )
                            } else {
                                let p = partuuid_path(uuids[0].as_str());
                                let ghost u0 = uuids[0]@;
                                let act = Action::WaitReady(p);
                                proof {
                                    assert(sd_action_allowed(self.0, config@, act)) by {
                                        assert(match act {
                                            Action::WaitReady(q) => q@ == spec_partuuid_path(u0),
                                            _ => false,
                                        });
                                    }
                                }
                                (Phase::AwaitDev { uuids, idx: 0 }, Step::Do(act))
                            }
                        },
                    }
                }
            },
            (Phase::AwaitDev { uuids, idx }, Event::Ready { interrupted }) => {
                if interrupted {
                    (Phase::Halted, Step::Fail(Error::Interrupted))
                } else if uuids.len() != 3 || idx >= 3 {
                    (
                        Phase::Halted,
                        Step::Fail(
                            Error::Invariant { msg: String::from_str("format out of range") },
                        ),
                    )
                } else {
                    let p = partuuid_path(uuids[idx].as_str());
                    let ghost u = uuids[idx as int]@;
                    let cmd = if idx == 0 {
                        mkfs_vfat_cmd(p.as_str())
                    } else if idx == 1 {
                        mkfs_boot_cmd(p.as_str())
                    } else {
                        mkfs_root_cmd(p.as_str())
                    };
                    let act = Action::Run(cmd);
                    proof {
                        assert(sd_action_allowed(self.0, config@, act)) by {
                            if idx == 0 {
                                assert(match act {
                                    Action::Run(c) => c@ == spec_plain_cmd(
                                        mkfs_vfat_argv(spec_partuuid_path(u)),
                                    ),
                                    _ => false,
                                });
                            } else if idx == 1 {
                                assert(match act {
                                    Action::Run(c) => c@ == spec_plain_cmd(
                                        mkfs_boot_argv(spec_partuuid_path(u)),
                                    ),
                                    _ => false,
                                });
                            } else {
                                assert(match act {
                                    Action::Run(c) => c@ == spec_plain_cmd(
                                        mkfs_root_argv(spec_partuuid_path(u)),
                                    ),
                                    _ => false,
                                });
                            }
                        }
                    }
                    (Phase::Format { uuids, idx }, Step::Do(act))
                }
            },
            (Phase::Format { uuids, idx }, Event::Ran { exit_code, stdout, stderr }) => {
                if exit_code != 0 {
                    (Phase::Halted, Step::Fail(Error::CommandFailed { exit_code, stdout, stderr }))
                } else if uuids.len() != 3 || idx >= 3 {
                    (
                        Phase::Halted,
                        Step::Fail(
                            Error::Invariant { msg: String::from_str("format out of range") },
                        ),
                    )
                } else if idx < 2 {
                    let p = partuuid_path(uuids[idx + 1].as_str());
                    let ghost u = uuids[idx + 1]@;
                    let act = Action::WaitReady(p);
                    proof {
                        assert(sd_action_allowed(self.0, config@, act)) by {
                            assert(match act {
                                Action::WaitReady(q) => q@ == spec_partuuid_path(u),
                                _ => false,
                            });
                        }
                    }
                    (Phase::AwaitDev { uuids, idx: idx + 1 }, Step::Do(act))
                } else {
                    let src = partuuid_path(uuids[2].as_str());
                    let ghost u = uuids[2]@;
                    let m = part_mount(src, tc.common.mount.clone(), "ext4");
                    let act = Action::Mount(m);
                    proof {
                        assert(sd_action_allowed(self.0, config@, act)) by {
                            assert(match act {
                                Action::Mount(mm) => mm@ == spec_part_mount(
                                    spec_partuuid_path(u),
                                    tc.common.mount@,
                                    "ext4"@,
                                ),
                                _ => false,
                            });
                        }
                    }
                    (Phase::MountRoot { uuids }, Step::Do(act))
                }
            },
            (Phase::MountRoot { uuids }, Event::Mounted { errno }) => match errno {
                Some(e) => (Phase::Halted, Step::Fail(Error::Syscall { errno: e })),
                None => {
                    if uuids.len() != 3 {
                        (
                            Phase::Halted,
                            Step::Fail(
                                Error::Invariant { msg: String::from_str("format out of range") },
                            ),
                        )
                    } else {
                        let src = partuuid_path(uuids[1].as_str());
                        let ghost u = uuids[1]@;
                        let m = part_mount(src, join_path(target, "boot"), "ext4");
                        let act = Action::Mount(m);
                        proof {
                            assert(sd_action_allowed(self.0, config@, act)) by {
                                assert(match act {
                                    Action::Mount(mm) => mm@ == spec_part_mount(
                                        spec_partuuid_path(u),
                                        spec_join_path(tc.common.mount@, "boot"@),
                                        "ext4"@,
                                    ),
                                    _ => false,
                                });
                            }
                        }
                        (Phase::MountBoot { uuids }, Step::Do(act))
                    }
                },
            },
            (Phase::MountBoot { uuids }, Event::Mounted { errno }) => match errno {
                Some(e) => (Phase::Halted, Step::Fail(Error::Syscall { errno: e })),
                None => {
                    if uuids.len() != 3 {
                        (
                            Phase::Halted,
                            Step::Fail(
                                Error::Invariant { msg: String::from_str("format out of range") },
                            ),
                        )
                    } else {
                        let src = partuuid_path(uuids[0].as_str());
                        let ghost u = uuids[0]@;
                        let m = part_mount(src, join_path(target, "boot/efi"), "vfat");
                        let act = Action::Mount(m);
                        proof {
                            assert(sd_action_allowed(self.0, config@, act)) by {
                                assert(match act {
                                    Action::Mount(mm) => mm@ == spec_part_mount(
                                        spec_partuuid_path(u),
                                        spec_join_path(tc.common.mount@, "boot/efi"@),
                                        "vfat"@,
                                    ),
                                    _ => false,
                                });
                            }
                        }
                        (Phase::MountEsp, Step::Do(act))
                    }
                },
            },
            (Phase::MountEsp, Event::Mounted { errno }) => match errno {
                Some(e) => (Phase::Halted, Step::Fail(Error::Syscall { errno: e })),
                None => {
                    let e = extract_request(tc.url.as_str(), target, tc.compression);
                    (Phase::Extracting, Step::Do(Action::Extract(e)))
                },
            },
            (Phase::Extracting, Event::Extracted { error }) => match error {
                Some(m) => (Phase::Halted, Step::Fail(Error::Io { msg: m })),
                None => (Phase::FstabQuery, Step::Do(Action::Run(parted_print_cmd(disk)))),
            },
            (Phase::FstabQuery, Event::Ran { exit_code, stdout, stderr }) => {
                if exit_code != 0 {
                    (Phase::Halted, Step::Fail(Error::CommandFailed { exit_code, stdout, stderr }))
                } else {
                    match parted_partition_uuids(stdout.as_str()) {
                        None => (
                            Phase::Halted,
                            Step::Fail(
                                Error::Io { msg: String::from_str("unparseable parted report") },
                            ),
                        ),
                        Some(uuids) => {
                            if uuids.len() != 3 {
                                (
                                    Phase::Halted,
                                    Step::Fail(
                                        Error::Invariant {
                                            msg: String::from_str(
                                                "expected exactly three partitions",
                                            ),
                                        },
                                    ),
                                )
                            } else {
                                let content = fstab_content(
                                    uuids[2].as_str(),
                                    uuids[1].as_str(),
                                    uuids[0].as_str(),
                                );
                                let ghost u0 = uuids[0]@;
                                let ghost u1 = uuids[1]@;
                                let ghost u2 = uuids[2]@;
                                let path = join_path(target, "etc/fstab");
                                let act = Action::WriteFile(path, content);
                                proof {
                                    assert(sd_action_allowed(self.0, config@, act)) by {
                                        assert(match act {
                                            Action::WriteFile(p, s) => p@ == spec_join_path(
                                                tc.common.mount@,
                                                "etc/fstab"@,
                                            ) && s@ == spec_fstab_content(u2, u1, u0),
                                            _ => false,
                                        });
                                    }
                                }
                                (Phase::FstabWrite, Step::Do(act))
                            }
                        },
                    }
                }
            },
            (Phase::FstabWrite, Event::Wrote { errno }) => match errno {
                Some(_) => (
                    Phase::Halted,
                    Step::Fail(Error::Io { msg: String::from_str("cannot write the fstab") }),
                ),
                None => {
                    if tc.common.distro == Distro::Ubuntu {
                        (Phase::PostMount, Step::Do(Action::MountAll(chroot_mount_plan(target))))
                    } else {
                        // other distributions have no post-install steps yet
                        *applied = true;
                        (Phase::Begin, Step::Done)
                    }
                },
            },
            (Phase::PostMount, Event::Mounted { errno }) => match errno {
                Some(e) => (Phase::Halted, Step::Fail(Error::Syscall { errno: e })),
                None => (Phase::PostRun, Step::Do(Action::RunAll(postinst_cmds(target)))),
            },
            (Phase::PostRun, Event::RanAll { failure }) => match failure {
                Some(f) => (
                    Phase::Halted,
                    Step::Fail(
                        Error::CommandFailed {
                            exit_code: f.exit_code,
                            stdout: f.stdout,
                            stderr: f.stderr,
                        },
                    ),
                ),
                None => (
                    Phase::PostCleanup,
                    Step::Do(Action::UnmountEach(chroot_unmount_plan(target))),
                ),
            },
            (Phase::PostCleanup, Event::Acked) => {
                *applied = true;
                (Phase::Begin, Step::Done)
            },
            (Phase::Halted, _) => (
                Phase::Halted,
                Step::Fail(
                    Error::Invariant { msg: String::from_str("the deployer already failed") },
                ),
            ),
            (_, _) => (
                Phase::Halted,
                Step::Fail(Error::Invariant { msg: String::from_str("unexpected event") }),
            ),
        }
    }
}

} // verus!
