//! The bootstrap configuration pair: the device record read from the
//! agent's own config file, and the tunnel addressing lifted from the
//! tunnel daemon's config file.

use vstd::prelude::*;

use crate::errors::ValidationError;
use crate::scan::scan_lines;
use crate::scan::spec_scan;
use crate::textutil::parse_u16;
use crate::textutil::parse_u16_spec;
use crate::textutil::spec_split;
use crate::textutil::str_split;
use crate::wg::WgScanError;

verus! {

/// The resolved pair the agent runs on.
#[derive(Debug, Clone)]
pub struct Config {
    pub device: Device,
    pub wireguard: Wireguard,
}

impl Config {
    /// Both halves at their initial values.
    pub fn init() -> (r: Config)
        ensures
            r.device@ == Device::init_view(),
            r.wireguard@ == Wireguard::init_view(),
    {
        Config { device: Device::init(), wireguard: Wireguard::init() }
    }

    pub fn get_device(&self) -> (r: &Device)
        ensures
            r == &self.device,
    {
        &self.device
    }

    pub fn get_wireguard(&self) -> (r: &Wireguard)
        ensures
            r == &self.wireguard,
    {
        &self.wireguard
    }
}

/// The device's bootstrap identity record.
#[derive(Debug, Clone)]
pub struct Device {
    uuid: String,
    fleet_uuid: String,
    api_url: String,
    file: String,
}

/// Also reachable under the name the tests use for it.
pub type DeviceConfig = Device;

/// Mathematical model of a bootstrap `Device`.
#[verifier::ext_equal]
pub struct DeviceV {
    pub uuid: Seq<char>,
    pub fleet_uuid: Seq<char>,
    pub api_url: Seq<char>,
    pub file: Seq<char>,
}

impl View for Device {
    type V = DeviceV;

    closed spec fn view(&self) -> DeviceV {
        DeviceV {
            uuid: self.uuid@,
            fleet_uuid: self.fleet_uuid@,
            api_url: self.api_url@,
            file: self.file@,
        }
    }
}

impl Device {
    /// The initial record: no identity, no fleet, the well-known
    /// control-plane URL and config location.
    pub open spec fn init_view() -> DeviceV {
        DeviceV {
            uuid: Seq::<char>::empty(),
            fleet_uuid: Seq::<char>::empty(),
            api_url: "https://api.roboticsdeployment.com/device"@,
            file: "/etc/rd/cfg.yaml"@,
        }
    }

    /// The first unmet field requirement, in priority order: identity,
    /// fleet, control-plane URL, config location.
    pub open spec fn validation(d: DeviceV) -> Result<(), ValidationError> {
        if d.uuid.len() == 0 {
            Err(ValidationError::UuidNotSet)
        } else if d.fleet_uuid.len() == 0 {
            Err(ValidationError::FleetNotSet)
        } else if d.api_url.len() == 0 {
            Err(ValidationError::ApiUrlNotSet)
        } else if d.file.len() == 0 {
            Err(ValidationError::FileNotSet)
        } else {
            Ok(())
        }
    }

    pub fn init() -> (r: Device)
        ensures
            r@ == Device::init_view(),
    {
        let r = Device {
            uuid: String::new(),
            fleet_uuid: String::new(),
            api_url: ("https://api.roboticsdeployment.com/device").to_owned(),
            file: ("/etc/rd/cfg.yaml").to_owned(),
        };
        proof {
            assert(r@ =~~= Device::init_view());
        }
        r
    }

    pub fn get_uuid(&self) -> (r: &str)
        ensures
            r@ == self@.uuid,
    {
        self.uuid.as_str()
    }

    pub fn get_fleet_uuid(&self) -> (r: &str)
        ensures
            r@ == self@.fleet_uuid,
    {
        self.fleet_uuid.as_str()
    }

    pub fn get_api_url(&self) -> (r: &str)
        ensures
            r@ == self@.api_url,
    {
        self.api_url.as_str()
    }

    pub fn get_file(&self) -> (r: &str)
        ensures
            r@ == self@.file,
    {
        self.file.as_str()
    }

    pub fn set_uuid(self, uuid: String) -> (r: Self)
        ensures
            r@ == (DeviceV { uuid: uuid@, ..self@ }),
    {
        let r = Device { uuid, ..self };
        proof {
            assert(r@ =~~= (DeviceV { uuid: r@.uuid, ..self@ }));
        }
        r
    }

    pub fn set_fleet_uuid(self, fleet: String) -> (r: Self)
        ensures
            r@ == (DeviceV { fleet_uuid: fleet@, ..self@ }),
    {
        let r = Device { fleet_uuid: fleet, ..self };
        proof {
            assert(r@ =~~= (DeviceV { fleet_uuid: r@.fleet_uuid, ..self@ }));
        }
        r
    }

    pub fn set_api_url(self, api_url: String) -> (r: Self)
        ensures
            r@ == (DeviceV { api_url: api_url@, ..self@ }),
    {
        let r = Device { api_url, ..self };
        proof {
            assert(r@ =~~= (DeviceV { api_url: r@.api_url, ..self@ }));
        }
        r
    }

    pub fn set_file(self, file: String) -> (r: Self)
        ensures
            r@ == (DeviceV { file: file@, ..self@ }),
    {
        let r = Device { file, ..self };
        proof {
            assert(r@ =~~= (DeviceV { file: r@.file, ..self@ }));
        }
        r
    }

    /// Checks required fields in priority order and reports the first
    /// unmet requirement, if any.
    pub fn validate(&self) -> (r: Result<&Self, ValidationError>)
        ensures
            match r {
                Ok(v) => v == self && Device::validation(self@) is Ok,
                Err(e) => Device::validation(self@) == Err::<(), ValidationError>(e),
            },
    {
        if self.uuid.as_str().is_empty() {
            Err(ValidationError::UuidNotSet)
        } else if self.fleet_uuid.as_str().is_empty() {
            Err(ValidationError::FleetNotSet)
        } else if self.api_url.as_str().is_empty() {
            Err(ValidationError::ApiUrlNotSet)
        } else if self.file.as_str().is_empty() {
            Err(ValidationError::FileNotSet)
        } else {
            Ok(self)
        }
    }
}

impl Default for Device {
    /// The same record `init` builds.
    fn default() -> (r: Self)
        ensures
            r@ == Device::init_view(),
    {
        Device::init()
    }
}

/// The tunnel addressing the bootstrap agent runs the heartbeat on.
#[derive(Debug, Clone)]
pub struct Wireguard {
    pub uuid: String,
    pub hub_ip: String,
    pub hub_port: u16,
    pub device_ip: String,
    pub api_url: String,
    pub file: String,
}

/// Mathematical model of a bootstrap `Wireguard`.
#[verifier::ext_equal]
pub struct WireguardV {
    pub uuid: Seq<char>,
    pub hub_ip: Seq<char>,
    pub hub_port: u16,
    pub device_ip: Seq<char>,
    pub api_url: Seq<char>,
    pub file: Seq<char>,
}

impl View for Wireguard {
    type V = WireguardV;

    open spec fn view(&self) -> WireguardV {
        WireguardV {
            uuid: self.uuid@,
            hub_ip: self.hub_ip@,
            hub_port: self.hub_port,
            device_ip: self.device_ip@,
            api_url: self.api_url@,
            file: self.file@,
        }
    }
}

impl Wireguard {
    /// The initial record: no addressing, the well-known control-plane
    /// URL and tunnel config location.
    pub open spec fn init_view() -> WireguardV {
        WireguardV {
            uuid: Seq::<char>::empty(),
            hub_ip: Seq::<char>::empty(),
            hub_port: 0,
            device_ip: Seq::<char>::empty(),
            api_url: "https://api.roboticsdeployment.com/wireguard"@,
            file: "/etc/wireguard/rd0.conf"@,
        }
    }

    /// What loading addressing from the given tunnel config lines must
    /// yield: the scanned hub address before its slash, the endpoint's
    /// port after its colon, the interface address before its slash, with
    /// the identity left unset and the well-known control-plane URL.
    pub open spec fn load_outcome(lines: Seq<Seq<char>>, file: Seq<char>) -> Result<
        WireguardV,
        WgScanError,
    > {
        match spec_scan(lines, "[Peer]"@, "AllowedIPs"@, false) {
            None => Err(WgScanError::HubIpNotFound),
            Some(hub_raw) => match spec_scan(lines, "[Peer]"@, "Endpoint"@, false) {
                None => Err(WgScanError::HubPortNotFound),
                Some(ep_raw) => match spec_scan(lines, "[Interface]"@, "Address"@, false) {
                    None => Err(WgScanError::DeviceIpNotFound),
                    Some(addr_raw) => {
                        let pieces = spec_split(ep_raw, ':');
                        if pieces.len() < 2 {
                            Err(WgScanError::HubPortFormat)
                        } else {
                            match parse_u16_spec(pieces[1]) {
                                None => Err(WgScanError::HubPortInvalid),
                                Some(p) => Ok(
                                    WireguardV {
                                        uuid: Seq::<char>::empty(),
                                        hub_ip: spec_split(hub_raw, '/')[0],
                                        hub_port: p,
                                        device_ip: spec_split(addr_raw, '/')[0],
                                        api_url: "https://api.roboticsdeployment.com/wireguard"@,
                                        file: file,
                                    },
                                ),
                            }
                        }
                    },
                },
            },
        }
    }

    pub fn init() -> (r: Wireguard)
        ensures
            r@ == Wireguard::init_view(),
    {
        let r = Wireguard {
            uuid: String::new(),
            hub_ip: String::new(),
            hub_port: 0,
            device_ip: String::new(),
            api_url: ("https://api.roboticsdeployment.com/wireguard").to_owned(),
            file: ("/etc/wireguard/rd0.conf").to_owned(),
        };
        proof {
            assert(r@ =~~= Wireguard::init_view());
        }
        r
    }

    pub fn get_uuid(&self) -> (r: &str)
        ensures
            r@ == self@.uuid,
    {
        self.uuid.as_str()
    }

    pub fn get_hub_ip(&self) -> (r: &str)
        ensures
            r@ == self@.hub_ip,
    {
        self.hub_ip.as_str()
    }

    pub fn get_hub_port(&self) -> (r: u16)
        ensures
            r == self@.hub_port,
    {
        self.hub_port
    }

    pub fn get_device_ip(&self) -> (r: &str)
        ensures
            r@ == self@.device_ip,
    {
        self.device_ip.as_str()
    }

    pub fn get_api_url(&self) -> (r: &str)
        ensures
            r@ == self@.api_url,
    {
        self.api_url.as_str()
    }

    pub fn get_file(&self) -> (r: &str)
        ensures
            r@ == self@.file,
    {
        self.file.as_str()
    }

    pub fn set_uuid(self, uuid: String) -> (r: Self)
        ensures
            r@ == (WireguardV { uuid: uuid@, ..self@ }),
    {
        let r = Wireguard { uuid, ..self };
        proof {
            assert(r@ =~~= (WireguardV { uuid: r@.uuid, ..self@ }));
        }
        r
    }

    pub fn set_hub_ip(self, hub_ip: String) -> (r: Self)
        ensures
            r@ == (WireguardV { hub_ip: hub_ip@, ..self@ }),
    {
        let r = Wireguard { hub_ip, ..self };
        proof {
            assert(r@ =~~= (WireguardV { hub_ip: r@.hub_ip, ..self@ }));
        }
        r
    }

    pub fn set_hub_port(self, hub_port: u16) -> (r: Self)
        ensures
            r@ == (WireguardV { hub_port: hub_port, ..self@ }),
    {
        let r = Wireguard { hub_port, ..self };
        proof {
            assert(r@ =~~= (WireguardV { hub_port: r@.hub_port, ..self@ }));
        }
        r
    }

    pub fn set_device_ip(self, device_ip: String) -> (r: Self)
        ensures
            r@ == (WireguardV { device_ip: device_ip@, ..self@ }),
    {
        let r = Wireguard { device_ip, ..self };
        proof {
            assert(r@ =~~= (WireguardV { device_ip: r@.device_ip, ..self@ }));
        }
        r
    }

    pub fn set_api_url(self, api_url: String) -> (r: Self)
        ensures
            r@ == (WireguardV { api_url: api_url@, ..self@ }),
    {
        let r = Wireguard { api_url, ..self };
        proof {
            assert(r@ =~~= (WireguardV { api_url: r@.api_url, ..self@ }));
        }
        r
    }

    pub fn set_file(self, file: String) -> (r: Self)
        ensures
            r@ == (WireguardV { file: file@, ..self@ }),
    {
        let r = Wireguard { file, ..self };
        proof {
            assert(r@ =~~= (WireguardV { file: r@.file, ..self@ }));
        }
        r
    }

    /// Load tunnel addressing from the lines of the tunnel config file at
    /// `wg_file`, as `load_outcome` describes.
    pub fn load_config(wg_file: &str, lines: &Vec<String>) -> (r: Result<Wireguard, WgScanError>)
        ensures
            (match r {
                Ok(c) => Ok::<WireguardV, WgScanError>(c@),
                Err(e) => Err(e),
            }) == Wireguard::load_outcome(lines.deep_view(), wg_file@),
    {
        let hub_raw = match scan_lines(lines, "[Peer]", "AllowedIPs") {
            Some(s) => s,
            None => {
                return Err(WgScanError::HubIpNotFound);
            },
        };
        let ep_raw = match scan_lines(lines, "[Peer]", "Endpoint") {
            Some(s) => s,
            None => {
                return Err(WgScanError::HubPortNotFound);
            },
        };
        let addr_raw = match scan_lines(lines, "[Interface]", "Address") {
            Some(s) => s,
            None => {
                return Err(WgScanError::DeviceIpNotFound);
            },
        };
        let ep_pieces = str_split(ep_raw.as_str(), ':');
        if ep_pieces.len() < 2 {
            return Err(WgScanError::HubPortFormat);
        }
        proof {
            assert(ep_pieces.deep_view()[1] == ep_pieces@[1]@);
        }
        let port = match parse_u16(ep_pieces[1].as_str()) {
            Some(p) => p,
            None => {
                return Err(WgScanError::HubPortInvalid);
            },
        };
        let hub_pieces = str_split(hub_raw.as_str(), '/');
        let addr_pieces = str_split(addr_raw.as_str(), '/');
        proof {
            crate::textutil::lemma_split_len(hub_raw@, '/');
            crate::textutil::lemma_split_len(addr_raw@, '/');
            assert(hub_pieces.deep_view()[0] == hub_pieces@[0]@);
            assert(addr_pieces.deep_view()[0] == addr_pieces@[0]@);
        }
        let c = Wireguard {
            uuid: String::new(),
            hub_ip: hub_pieces[0].clone(),
            hub_port: port,
            device_ip: addr_pieces[0].clone(),
            api_url: ("https://api.roboticsdeployment.com/wireguard").to_owned(),
            file: wg_file.to_owned(),
        };
        proof {
            assert(c@ =~~= (match Wireguard::load_outcome(lines.deep_view(), wg_file@) {
                Ok(v) => v,
                Err(_) => c@,
            }));
        }
        Ok(c)
    }
}

} // verus!
