//! The minimal device record of the first-boot agent: an identity and the
//! name of the network interface the tunnel runs on.

use vstd::prelude::*;

verus! {

/// The agent's config document: one device record.
#[derive(Debug, Clone)]
pub struct Config {
    device: DeviceConfig,
}

impl Config {
    /// A config holding the given device record.
    pub fn new(device: DeviceConfig) -> (r: Config)
        ensures
            r.device() == device,
    {
        Config { device }
    }

    /// The device record this config holds.
    pub closed spec fn device(&self) -> DeviceConfig {
        self.device
    }

    pub fn get_device(&self) -> (r: &DeviceConfig)
        ensures
            r == &self.device(),
    {
        &self.device
    }
}

/// The device's identity and tunnel interface name.
#[derive(Debug, Clone)]
pub struct DeviceConfig {
    uuid: String,
    interface: String,
}

/// Mathematical model of a `DeviceConfig`.
#[verifier::ext_equal]
pub struct DeviceConfigV {
    pub uuid: Seq<char>,
    pub interface: Seq<char>,
}

impl View for DeviceConfig {
    type V = DeviceConfigV;

    closed spec fn view(&self) -> DeviceConfigV {
        DeviceConfigV { uuid: self.uuid@, interface: self.interface@ }
    }
}

impl DeviceConfig {
    /// A record with the given identity and interface name.
    pub fn new(uuid: String, interface: String) -> (r: DeviceConfig)
        ensures
            r@.uuid == uuid@,
            r@.interface == interface@,
    {
        DeviceConfig { uuid, interface }
    }

    pub fn get_uuid(&self) -> (r: &str)
        ensures
            r@ == self@.uuid,
    {
        self.uuid.as_str()
    }

    pub fn get_interface(&self) -> (r: &str)
        ensures
            r@ == self@.interface,
    {
        self.interface.as_str()
    }
}

} // verus!
