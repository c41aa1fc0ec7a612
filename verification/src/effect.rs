//! The effect boundary of the engine.
//!
//! The verified step machines never touch the world themselves: they
//! emit an `Action` describing one side effect and receive an `Event`
//! describing its outcome.  An unverified driver performs the actions;
//! everything it reports back is handled for every possible value.

use vstd::prelude::*;
use crate::error::Error;
use crate::fstab::FstabEntry;
use crate::plugins::tar::Compression;

verus! {

/// One external command: its argument vector (program first), an
/// optional stdin payload, and an optional chroot for the child.
#[derive(Debug)]
pub struct CmdSpec {
    pub argv: Vec<String>,
    pub stdin: Option<String>,
    pub chroot: Option<String>,
}

/// The mathematical value of a command.
#[verifier::ext_equal]
pub struct CmdSpecV {
    pub argv: Seq<Seq<char>>,
    pub stdin: Option<Seq<char>>,
    pub chroot: Option<Seq<char>>,
}

impl View for CmdSpec {
    type V = CmdSpecV;

    open spec fn view(&self) -> CmdSpecV {
        CmdSpecV {
            argv: self.argv.deep_view(),
            stdin: self.stdin.deep_view(),
            chroot: self.chroot.deep_view(),
        }
    }
}

/// The values of a command list.
pub open spec fn view_cmds(s: Seq<CmdSpec>) -> Seq<CmdSpecV> {
    s.map_values(|c: CmdSpec| c@)
}

/// One mount: optional source device, target path, filesystem type,
/// and whether the historical magic flag set is used.
#[derive(Debug)]
pub struct MountSpec {
    pub source: Option<String>,
    pub target: String,
    pub fstype: String,
    pub legacy_flags: bool,
}

/// The mathematical value of a mount.
#[verifier::ext_equal]
pub struct MountSpecV {
    pub source: Option<Seq<char>>,
    pub target: Seq<char>,
    pub fstype: Seq<char>,
    pub legacy_flags: bool,
}

impl View for MountSpec {
    type V = MountSpecV;

    open spec fn view(&self) -> MountSpecV {
        MountSpecV {
            source: self.source.deep_view(),
            target: self.target@,
            fstype: self.fstype@,
            legacy_flags: self.legacy_flags,
        }
    }
}

/// The values of a mount list.
pub open spec fn view_mounts(s: Seq<MountSpec>) -> Seq<MountSpecV> {
    s.map_values(|m: MountSpec| m@)
}

/// A streaming tarball extraction: the source, the destination, the
/// decompressor, whether the source is remote, and the unpacking
/// policy, which is pinned by the builder's contract.
#[derive(Debug)]
pub struct ExtractSpec {
    pub url: String,
    pub dest: String,
    pub compression: Option<Compression>,
    pub remote: bool,
    pub allow_external_symlinks: bool,
    pub ignore_zeros: bool,
    pub overwrite: bool,
    pub preserve_mtime: bool,
    pub preserve_permissions: bool,
    pub preserve_ownerships: bool,
    pub unpack_xattrs: bool,
}

/// The mathematical value of an extraction request.
#[verifier::ext_equal]
pub struct ExtractSpecV {
    pub url: Seq<char>,
    pub dest: Seq<char>,
    pub compression: Option<Compression>,
    pub remote: bool,
    pub allow_external_symlinks: bool,
    pub ignore_zeros: bool,
    pub overwrite: bool,
    pub preserve_mtime: bool,
    pub preserve_permissions: bool,
    pub preserve_ownerships: bool,
    pub unpack_xattrs: bool,
}

impl View for ExtractSpec {
    type V = ExtractSpecV;

    open spec fn view(&self) -> ExtractSpecV {
        ExtractSpecV {
            url: self.url@,
            dest: self.dest@,
            compression: self.compression,
            remote: self.remote,
            allow_external_symlinks: self.allow_external_symlinks,
            ignore_zeros: self.ignore_zeros,
            overwrite: self.overwrite,
            preserve_mtime: self.preserve_mtime,
            preserve_permissions: self.preserve_permissions,
            preserve_ownerships: self.preserve_ownerships,
            unpack_xattrs: self.unpack_xattrs,
        }
    }
}

/// One side effect requested from the driver.
#[derive(Debug)]
pub enum Action {
    /// Run one command and report exit code, stdout and stderr.
    Run(CmdSpec),
    /// Run commands in order, stopping at the first non-zero exit.
    RunAll(Vec<CmdSpec>),
    /// Run commands in order regardless of their exit codes.
    RunEach(Vec<CmdSpec>),
    /// Perform one idempotent mount.
    Mount(MountSpec),
    /// Perform mounts in order, stopping at the first error.
    MountAll(Vec<MountSpec>),
    /// Unmount the listed targets in order, stopping at the first error.
    UnmountAll(Vec<String>),
    /// Unmount the listed targets in order, keeping going on errors.
    UnmountEach(Vec<String>),
    /// Read the live mount table, with a canonical form of each device.
    ReadMounts,
    /// Canonicalize one path.
    Canonicalize(String),
    /// Read a whole file.
    ReadFile(String),
    /// Write a whole file, creating parent directories.
    WriteFile(String, String),
    /// Test whether a path exists.
    PathExists(String),
    /// List the file names in a directory, following symlinks.
    ListDir(String),
    /// Poll until the path exists; a SIGINT breaks the wait.
    WaitReady(String),
    /// Stream, decompress and unpack a tarball.
    Extract(ExtractSpec),
    /// Load a kernel and initramfs for kexec with the given cmdline.
    KexecLoad(String, String, String),
    /// Jump into the loaded image; on success this never returns.
    KexecReboot,
}

/// The index and output of the first failing command of a batch.
#[derive(Debug)]
pub struct RunFailure {
    pub index: usize,
    pub exit_code: i32,
    pub stdout: String,
    pub stderr: String,
}

/// The outcome of one `Action`, reported by the driver.
#[derive(Debug)]
pub enum Event {
    /// Begin, or continue after a recipe finished.
    Start,
    /// Outcome of `Run`.
    Ran { exit_code: i32, stdout: String, stderr: String },
    /// Outcome of `RunAll`: the first failure, if any.
    RanAll { failure: Option<RunFailure> },
    /// Outcome of `Mount`, `MountAll`, `UnmountAll`: the first errno.
    Mounted { errno: Option<i32> },
    /// Outcome of `ReadMounts`: the entries and, for each, the
    /// canonical form of its device (empty when it has none).
    MountsRead { entries: Vec<FstabEntry>, canon_devices: Vec<String> },
    /// Outcome of `Canonicalize`.
    Canon { path: Option<String> },
    /// Outcome of `ReadFile`.
    FileRead { content: Option<String> },
    /// Outcome of `WriteFile`.
    Wrote { errno: Option<i32> },
    /// Outcome of `PathExists`.
    Exists { yes: bool },
    /// Outcome of `ListDir`.
    DirListed { names: Option<Vec<String>> },
    /// Outcome of `WaitReady`.
    Ready { interrupted: bool },
    /// Outcome of `Extract`: a message for the first error, if any.
    Extracted { error: Option<String> },
    /// Outcome of `KexecLoad`.
    KexecLoaded { errno: Option<i32> },
    /// `KexecReboot` returned, which only an error can cause.
    RebootReturned { errno: i32 },
    /// Outcome of `RunEach` and `UnmountEach`, which cannot fail.
    Acked,
}

/// What a plugin asks for next: one more effect, completion, or a
/// pipeline abort.
#[derive(Debug)]
pub enum Step {
    Do(Action),
    Done,
    Fail(Error),
}

} // verus!
