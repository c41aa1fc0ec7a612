//! A declarative bare-metal provisioner, verified with Verus.
//!
//! The library turns a configuration document into a `State` of ordered
//! recipes and drives each recipe's plugin as a pure step machine: every
//! side effect (an external command, a mount, a file read or write) is
//! emitted as an `Action` value and its result comes back as an `Event`.
//! The decision logic — argument vectors, ordering, idempotence, parsing
//! of fstab and parted output, kernel command-line composition — is
//! verified; a thin unverified shell performs the actions.

pub mod chroot;
pub mod chunk;
pub mod cloneutil;
pub mod effect;
pub mod envfile;
pub mod error;
pub mod fsio;
pub mod fstab;
pub mod parted;
pub mod pathutil;
pub mod plugins;
pub mod strutil;
pub mod syscall;
