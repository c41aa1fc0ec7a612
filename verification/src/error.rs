//! Error kinds of the provisioning engine.

use vstd::prelude::*;

verus! {

/// Everything that can stop a run.
///
/// - `Config`: unparseable or ambiguous input; surfaced before any side effect.
/// - `CommandFailed`: a pinned external tool returned a non-zero exit code.
/// - `Syscall`: a mount, umount or kexec syscall failed; carries the errno.
/// - `Io`: local or remote I/O failed.
/// - `Invariant`: an internal invariant does not hold (for example a
///   partition count other than three, or a kernel given without an
///   initramfs).
/// - `Interrupted`: the operator broke a wait loop with SIGINT.
#[derive(Debug, Clone)]
pub enum Error {
    Config { msg: String },
    CommandFailed { exit_code: i32, stdout: String, stderr: String },
    Syscall { errno: i32 },
    Io { msg: String },
    Invariant { msg: String },
    Interrupted,
}

impl Error {
    /// A short description of the error, suitable for an operator.
    pub fn message(&self) -> (r: String)
        ensures
            r@ == self.spec_message(),
    {
        match self {
            Error::Config { msg } => msg.clone(),
            Error::CommandFailed { stderr, .. } => stderr.clone(),
            Error::Syscall { .. } => String::from_str("syscall failed"),
            Error::Io { msg } => msg.clone(),
            Error::Invariant { msg } => msg.clone(),
            Error::Interrupted => String::from_str("interrupted"),
        }
    }

    pub open spec fn spec_message(&self) -> Seq<char> {
        match self {
            Error::Config { msg } => msg@,
            Error::CommandFailed { stderr, .. } => stderr@,
            Error::Syscall { .. } => "syscall failed"@,
            Error::Io { msg } => msg@,
            Error::Invariant { msg } => msg@,
            Error::Interrupted => "interrupted"@,
        }
    }
}

} // verus!
