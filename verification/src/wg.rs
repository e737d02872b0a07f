//! Tunnel addressing lifted from an existing tunnel config file: the hub
//! address and port from the first peer entry, and the device's own
//! address from the interface entry.

use vstd::prelude::*;

use crate::scan::scan_lines;
use crate::scan::spec_scan;
use crate::textutil::parse_u16;
use crate::textutil::parse_u16_spec;
use crate::textutil::spec_split;
use crate::textutil::str_split;

verus! {

/// Why addressing could not be lifted from the tunnel config file.
#[derive(Debug, Clone, Copy, PartialEq, Eq, Structural)]
pub enum WgScanError {
    /// No hub address found under the peer section.
    HubIpNotFound,
    /// No endpoint found under the peer section.
    HubPortNotFound,
    /// No device address found under the interface section.
    DeviceIpNotFound,
    /// The endpoint carries no port after a colon.
    HubPortFormat,
    /// The endpoint's port is not a 16-bit number.
    HubPortInvalid,
}

/// The addressing needed to run the heartbeat, as read from the tunnel's
/// own config file.
#[derive(Debug, Clone)]
pub struct WgConfig {
    hub_ip: String,
    hub_port: u16,
    device_ip: String,
    file: String,
}

/// Mathematical model of a `WgConfig`.
#[verifier::ext_equal]
pub struct WgConfigV {
    pub hub_ip: Seq<char>,
    pub hub_port: u16,
    pub device_ip: Seq<char>,
    pub file: Seq<char>,
}

impl View for WgConfig {
    type V = WgConfigV;

    closed spec fn view(&self) -> WgConfigV {
        WgConfigV {
            hub_ip: self.hub_ip@,
            hub_port: self.hub_port,
            device_ip: self.device_ip@,
            file: self.file@,
        }
    }
}

impl WgConfig {
    /// The all-unset configuration, pointing at the well-known tunnel
    /// config location.
    pub fn default() -> (r: WgConfig)
        ensures
            r@.hub_ip.len() == 0,
            r@.hub_port == 0,
            r@.device_ip.len() == 0,
            r@.file == "/etc/wireguard/rd0.conf"@,
    {
        WgConfig {
            hub_ip: String::new(),
            hub_port: 0,
            device_ip: String::new(),
            file: ("/etc/wireguard/rd0.conf").to_owned(),
        }
    }

    pub fn get_hub_ip(&self) -> (r: &str)
        ensures
            r@ == self@.hub_ip,
    {
        self.hub_ip.as_str()
    }

    pub fn get_hub_port(&self) -> (r: u16)
        ensures
            r == self@.hub_port,
    {
        self.hub_port
    }

    pub fn get_device_ip(&self) -> (r: &str)
        ensures
            r@ == self@.device_ip,
    {
        self.device_ip.as_str()
    }

    pub fn get_file(&self) -> (r: &str)
        ensures
            r@ == self@.file,
    {
        self.file.as_str()
    }
}

/// What lifting addressing from the given config lines must yield: the
/// hub address is what stands before the first slash of the scanned
/// allowed-address value; the hub port is the number after the first
/// colon of the scanned endpoint; the device address is what stands
/// before the first slash of the scanned interface address. Each missing
/// or malformed piece is reported, first failure first.
pub open spec fn wg_config_outcome(lines: Seq<Seq<char>>, file: Seq<char>) -> Result<
    WgConfigV,
    WgScanError,
> {
    match spec_scan(lines, "[Peer]"@, "AllowedIPs"@, false) {
        None => Err(WgScanError::HubIpNotFound),
        Some(hub_raw) => match spec_scan(lines, "[Peer]"@, "Endpoint"@, false) {
            None => Err(WgScanError::HubPortNotFound),
            Some(ep_raw) => match spec_scan(lines, "[Interface]"@, "Address"@, false) {
                None => Err(WgScanError::DeviceIpNotFound),
                Some(addr_raw) => {
                    let pieces = spec_split(ep_raw, ':');
                    if pieces.len() < 2 {
                        Err(WgScanError::HubPortFormat)
                    } else {
                        match parse_u16_spec(pieces[1]) {
                            None => Err(WgScanError::HubPortInvalid),
                            Some(p) => Ok(
                                WgConfigV {
                                    hub_ip: spec_split(hub_raw, '/')[0],
                                    hub_port: p,
                                    device_ip: spec_split(addr_raw, '/')[0],
                                    file: file,
                                },
                            ),
                        }
                    }
                },
            },
        },
    }
}

/// Lift the heartbeat addressing from the lines of the tunnel config file
/// at `wg_file`, as `wg_config_outcome` describes.
pub fn get_config(wg_file: &str, lines: &Vec<String>) -> (r: Result<WgConfig, WgScanError>)
    ensures
        (match r {
            Ok(c) => Ok::<WgConfigV, WgScanError>(c@),
            Err(e) => Err(e),
        }) == wg_config_outcome(lines.deep_view(), wg_file@),
{
    let hub_raw = match scan_lines(lines, "[Peer]", "AllowedIPs") {
        Some(s) => s,
        None => {
            return Err(WgScanError::HubIpNotFound);
        },
    };
    let ep_raw = match scan_lines(lines, "[Peer]", "Endpoint") {
        Some(s) => s,
        None => {
            return Err(WgScanError::HubPortNotFound);
        },
    };
    let addr_raw = match scan_lines(lines, "[Interface]", "Address") {
        Some(s) => s,
        None => {
            return Err(WgScanError::DeviceIpNotFound);
        },
    };
    let ep_pieces = str_split(ep_raw.as_str(), ':');
    if ep_pieces.len() < 2 {
        return Err(WgScanError::HubPortFormat);
    }
    proof {
        assert(ep_pieces.deep_view()[1] == ep_pieces@[1]@);
    }
    let port = match parse_u16(ep_pieces[1].as_str()) {
        Some(p) => p,
        None => {
            return Err(WgScanError::HubPortInvalid);
        },
    };
    let hub_pieces = str_split(hub_raw.as_str(), '/');
    let addr_pieces = str_split(addr_raw.as_str(), '/');
    proof {
        crate::textutil::lemma_split_len(hub_raw@, '/');
        crate::textutil::lemma_split_len(addr_raw@, '/');
        assert(hub_pieces.deep_view()[0] == hub_pieces@[0]@);
        assert(addr_pieces.deep_view()[0] == addr_pieces@[0]@);
    }
    let c = WgConfig {
        hub_ip: hub_pieces[0].clone(),
        hub_port: port,
        device_ip: addr_pieces[0].clone(),
        file: wg_file.to_owned(),
    };
    proof {
        assert(c@ =~~= (match wg_config_outcome(lines.deep_view(), wg_file@) {
            Ok(v) => v,
            Err(_) => c@,
        }));
    }
    Ok(c)
}

} // verus!
