//! The first-boot agent's tunnel addressing: the hub's host and the
//! device's own address, lifted from the tunnel config file.

use vstd::prelude::*;
use vstd::string::StrSliceExecFns;

use crate::scan::scan_lines_host;
use crate::scan::spec_scan_host;
use crate::textutil::spec_split;
use crate::textutil::str_split;
use crate::wg::WgScanError;

verus! {

/// The two addresses the first-boot heartbeat needs.
#[derive(Debug, Clone)]
pub struct WgConfig {
    hub_ip: String,
    device_ip: String,
}

/// Mathematical model of a first-boot `WgConfig`.
#[verifier::ext_equal]
pub struct WgConfigV {
    pub hub_ip: Seq<char>,
    pub device_ip: Seq<char>,
}

impl View for WgConfig {
    type V = WgConfigV;

    closed spec fn view(&self) -> WgConfigV {
        WgConfigV { hub_ip: self.hub_ip@, device_ip: self.device_ip@ }
    }
}

impl WgConfig {
    pub fn get_hub_ip(&self) -> (r: &str)
        ensures
            r@ == self@.hub_ip,
    {
        self.hub_ip.as_str()
    }

    pub fn get_device_ip(&self) -> (r: &str)
        ensures
            r@ == self@.device_ip,
    {
        self.device_ip.as_str()
    }
}

/// What lifting the two addresses from the config lines must yield: the
/// hub host scanned under the peer section and the device address scanned
/// under the interface section, each taken before its first slash, and
/// each reported missing when the scan finds nothing or an empty value.
pub open spec fn wg_config_outcome(lines: Seq<Seq<char>>) -> Result<WgConfigV, WgScanError> {
    match spec_scan_host(lines, "[Peer]"@, "AllowedIPs"@, false) {
        None => Err(WgScanError::HubIpNotFound),
        Some(h) => {
            if h.len() == 0 {
                Err(WgScanError::HubIpNotFound)
            } else {
                match spec_scan_host(lines, "[Interface]"@, "Address"@, false) {
                    None => Err(WgScanError::DeviceIpNotFound),
                    Some(d) => {
                        if d.len() == 0 {
                            Err(WgScanError::DeviceIpNotFound)
                        } else {
                            Ok(
                                WgConfigV {
                                    hub_ip: spec_split(h, '/')[0],
                                    device_ip: spec_split(d, '/')[0],
                                },
                            )
                        }
                    },
                }
            }
        },
    }
}

/// Lift the two heartbeat addresses from the lines of the tunnel config
/// file, as `wg_config_outcome` describes.
pub fn get_config(lines: &Vec<String>) -> (r: Result<WgConfig, WgScanError>)
    ensures
        (match r {
            Ok(c) => Ok::<WgConfigV, WgScanError>(c@),
            Err(e) => Err(e),
        }) == wg_config_outcome(lines.deep_view()),
{
    let hub_host = match scan_lines_host(lines, "[Peer]", "AllowedIPs") {
        Some(s) => s,
        None => {
            return Err(WgScanError::HubIpNotFound);
        },
    };
    if hub_host.as_str().unicode_len() == 0 {
        return Err(WgScanError::HubIpNotFound);
    }
    let dev_host = match scan_lines_host(lines, "[Interface]", "Address") {
        Some(s) => s,
        None => {
            return Err(WgScanError::DeviceIpNotFound);
        },
    };
    if dev_host.as_str().unicode_len() == 0 {
        return Err(WgScanError::DeviceIpNotFound);
    }
    let hub_pieces = str_split(hub_host.as_str(), '/');
    let dev_pieces = str_split(dev_host.as_str(), '/');
    proof {
        crate::textutil::lemma_split_len(hub_host@, '/');
        crate::textutil::lemma_split_len(dev_host@, '/');
        assert(hub_pieces.deep_view()[0] == hub_pieces@[0]@);
        assert(dev_pieces.deep_view()[0] == dev_pieces@[0]@);
    }
    let c = WgConfig { hub_ip: hub_pieces[0].clone(), device_ip: dev_pieces[0].clone() };
    proof {
        assert(c@ =~~= (match wg_config_outcome(lines.deep_view()) {
            Ok(v) => v,
            Err(_) => c@,
        }));
    }
    Ok(c)
}

} // verus!
