//! Configuration of the reboot plugin.

use vstd::prelude::*;
use crate::plugins::kexec;

verus! {

/// The reboot flavours; an in-kernel kexec handoff is the only one.
#[derive(Debug)]
pub enum Config {
    Kexec(kexec::Config),
}

/// The mathematical value of a reboot configuration.
#[verifier::ext_equal]
pub enum ConfigV {
    Kexec(kexec::ConfigV),
}

impl View for Config {
    type V = ConfigV;

    open spec fn view(&self) -> ConfigV {
        match self {
            Config::Kexec(c) => ConfigV::Kexec(c@),
        }
    }
}

impl Clone for Config {
    fn clone(&self) -> (r: Self)
        ensures
            r@ == self@,
    {
        match self {
            Config::Kexec(c) => Config::Kexec(c.clone()),
        }
    }
}

} // verus!
