//! Configuration of the tarball system deployer.

use vstd::prelude::*;
use crate::plugins::sys_deploy::{CommonConfig, CommonConfigV};

verus! {

/// A streaming decompressor choice for the tarball source.
#[derive(Debug, Clone, Copy, PartialEq, Eq, Structural)]
pub enum Compression {
    Zstd,
    Gzip,
    Bzip2,
    Xz,
    Lzma,
}

/// Where the root filesystem image comes from and how it is packed.
#[derive(Debug)]
pub struct Config {
    pub url: String,
    pub compression: Option<Compression>,
    pub common: CommonConfig,
}

/// The mathematical value of a tar deployer configuration.
#[verifier::ext_equal]
pub struct ConfigV {
    pub url: Seq<char>,
    pub compression: Option<Compression>,
    pub common: CommonConfigV,
}

impl View for Config {
    type V = ConfigV;

    open spec fn view(&self) -> ConfigV {
        ConfigV { url: self.url@, compression: self.compression, common: self.common@ }
    }
}

impl Clone for Config {
    fn clone(&self) -> (r: Self)
        ensures
            r@ == self@,
    {
        Config { url: self.url.clone(), compression: self.compression, common: self.common.clone() }
    }
}

} // verus!
