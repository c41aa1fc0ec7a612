//! The network-plan sub-item of the system reconfigurator.  Its
//! execution is deferred: applying it only flips its completion flag.

use vstd::prelude::*;
use crate::cloneutil::clone_opt_string;

verus! {

/// One interface plan: DHCP or a static address, keyed by MAC address.
#[derive(Debug)]
pub struct ConfigItem {
    pub dhcp: bool,
    pub interface: String,
    pub mac_address: String,
    pub address: Option<String>,
}

/// The mathematical value of a network-plan item.
#[verifier::ext_equal]
pub struct ConfigItemV {
    pub dhcp: bool,
    pub interface: Seq<char>,
    pub mac_address: Seq<char>,
    pub address: Option<Seq<char>>,
}

impl View for ConfigItem {
    type V = ConfigItemV;

    open spec fn view(&self) -> ConfigItemV {
        ConfigItemV {
            dhcp: self.dhcp,
            interface: self.interface@,
            mac_address: self.mac_address@,
            address: self.address.deep_view(),
        }
    }
}

impl Clone for ConfigItem {
    fn clone(&self) -> (r: Self)
        ensures
            r@ == self@,
    {
        ConfigItem {
            dhcp: self.dhcp,
            interface: self.interface.clone(),
            mac_address: self.mac_address.clone(),
            address: clone_opt_string(&self.address),
        }
    }
}

} // verus!
