//! The two persisted entities the agent resolves — the device identity and
//! the WireGuard peer set — together with their validation rules.
//!
//! Validation checks required fields in a fixed priority order and reports
//! only the first unmet requirement; recovery logic branches on which
//! requirement that was, so the order is part of the contract.

use vstd::prelude::*;

use crate::errors::NotSetError;

verus! {

/// Identity record of the device: who it is, which fleet it belongs to,
/// where its control plane lives, and where the record itself is persisted.
#[derive(Debug, Clone)]
pub struct Device {
    pub created_at: u64,
    pub uuid: String,
    pub fleet_uuid: String,
    pub api_url: String,
    pub file: String,
    pub wireguard_uuid: String,
}

/// Mathematical model of a `Device`.
#[verifier::ext_equal]
pub struct DeviceV {
    pub created_at: u64,
    pub uuid: Seq<char>,
    pub fleet_uuid: Seq<char>,
    pub api_url: Seq<char>,
    pub file: Seq<char>,
    pub wireguard_uuid: Seq<char>,
}

impl View for Device {
    type V = DeviceV;

    open spec fn view(&self) -> DeviceV {
        DeviceV {
            created_at: self.created_at,
            uuid: self.uuid@,
            fleet_uuid: self.fleet_uuid@,
            api_url: self.api_url@,
            file: self.file@,
            wireguard_uuid: self.wireguard_uuid@,
        }
    }
}

/// The tunnel-local side of the peer configuration.
#[derive(Debug, Clone)]
pub struct Interface {
    pub private_key: String,
    pub address: String,
    pub listen_port: Option<u16>,
}

/// Mathematical model of an `Interface`.
#[verifier::ext_equal]
pub struct InterfaceV {
    pub private_key: Seq<char>,
    pub address: Seq<char>,
    pub listen_port: Option<u16>,
}

impl View for Interface {
    type V = InterfaceV;

    open spec fn view(&self) -> InterfaceV {
        InterfaceV {
            private_key: self.private_key@,
            address: self.address@,
            listen_port: self.listen_port,
        }
    }
}

/// One remote peer of the tunnel.
#[derive(Debug, Clone)]
pub struct Peer {
    pub public_key: String,
    pub allowed_ips: Vec<String>,
    pub endpoint: Option<String>,
}

/// Mathematical model of a `Peer`.
#[verifier::ext_equal]
pub struct PeerV {
    pub public_key: Seq<char>,
    pub allowed_ips: Seq<Seq<char>>,
    pub endpoint: Option<Seq<char>>,
}

impl View for Peer {
    type V = PeerV;

    open spec fn view(&self) -> PeerV {
        PeerV {
            public_key: self.public_key@,
            allowed_ips: self.allowed_ips.deep_view(),
            endpoint: match self.endpoint {
                Some(e) => Some(e@),
                None => None,
            },
        }
    }
}

impl DeepView for Peer {
    type V = PeerV;

    open spec fn deep_view(&self) -> PeerV {
        self.view()
    }
}

/// The WireGuard peer-set record: the structured source of truth from which
/// the tunnel daemon's native file is derived.
#[derive(Debug, Clone)]
pub struct WireGuard {
    pub created_at: u64,
    pub uuid: String,
    pub device_uuid: String,
    pub interface: Interface,
    pub peers: Vec<Peer>,
    pub api_url: String,
    pub file: String,
    pub wireguard_file: String,
}

/// Mathematical model of a `WireGuard` record.
#[verifier::ext_equal]
pub struct WireGuardV {
    pub created_at: u64,
    pub uuid: Seq<char>,
    pub device_uuid: Seq<char>,
    pub interface: InterfaceV,
    pub peers: Seq<PeerV>,
    pub api_url: Seq<char>,
    pub file: Seq<char>,
    pub wireguard_file: Seq<char>,
}

impl View for WireGuard {
    type V = WireGuardV;

    open spec fn view(&self) -> WireGuardV {
        WireGuardV {
            created_at: self.created_at,
            uuid: self.uuid@,
            device_uuid: self.device_uuid@,
            interface: self.interface@,
            peers: self.peers.deep_view(),
            api_url: self.api_url@,
            file: self.file@,
            wireguard_file: self.wireguard_file@,
        }
    }
}

/// An entity whose required fields can be checked in a fixed priority
/// order, yielding the first missing one.
pub trait Validatable: Sized {
    /// The verdict validation must return: `Ok` when every required field
    /// is set, otherwise the highest-priority missing field.
    spec fn validation(&self) -> Result<(), NotSetError>;

    /// Checks required fields in priority order and reports the first
    /// unmet requirement, if any.
    fn validate(&self) -> (r: Result<&Self, NotSetError>)
        ensures
            match r {
                Ok(v) => v == self && self.validation() is Ok,
                Err(e) => self.validation() == Err::<(), NotSetError>(e),
            },
    ;
}

impl Validatable for Device {
    /// Priority order: timestamp, identity, fleet, control-plane URL,
    /// record path.
    open spec fn validation(&self) -> Result<(), NotSetError> {
        if self.created_at == 0 {
            Err(NotSetError::CreatedAt)
        } else if self.uuid@.len() == 0 {
            Err(NotSetError::Uuid)
        } else if self.fleet_uuid@.len() == 0 {
            Err(NotSetError::Fleet)
        } else if self.api_url@.len() == 0 {
            Err(NotSetError::ApiUrl)
        } else if self.file@.len() == 0 {
            Err(NotSetError::File)
        } else {
            Ok(())
        }
    }

    fn validate(&self) -> (r: Result<&Self, NotSetError>) {
        if self.created_at == 0 {
            Err(NotSetError::CreatedAt)
        } else if self.uuid.as_str().is_empty() {
            Err(NotSetError::Uuid)
        } else if self.fleet_uuid.as_str().is_empty() {
            Err(NotSetError::Fleet)
        } else if self.api_url.as_str().is_empty() {
            Err(NotSetError::ApiUrl)
        } else if self.file.as_str().is_empty() {
            Err(NotSetError::File)
        } else {
            Ok(self)
        }
    }
}

impl Validatable for WireGuard {
    /// Priority order: timestamp, private key, tunnel address, peer set,
    /// control-plane URL, record path, native-config path.
    open spec fn validation(&self) -> Result<(), NotSetError> {
        if self.created_at == 0 {
            Err(NotSetError::CreatedAt)
        } else if self.interface.private_key@.len() == 0 {
            Err(NotSetError::PrivateKey)
        } else if self.interface.address@.len() == 0 {
            Err(NotSetError::Address)
        } else if self.peers@.len() == 0 {
            Err(NotSetError::Peers)
        } else if self.api_url@.len() == 0 {
            Err(NotSetError::ApiUrl)
        } else if self.file@.len() == 0 {
            Err(NotSetError::File)
        } else if self.wireguard_file@.len() == 0 {
            Err(NotSetError::WireguardFile)
        } else {
            Ok(())
        }
    }

    fn validate(&self) -> (r: Result<&Self, NotSetError>) {
        if self.created_at == 0 {
            Err(NotSetError::CreatedAt)
        } else if self.interface.private_key.as_str().is_empty() {
            Err(NotSetError::PrivateKey)
        } else if self.interface.address.as_str().is_empty() {
            Err(NotSetError::Address)
        } else if self.peers.is_empty() {
            Err(NotSetError::Peers)
        } else if self.api_url.as_str().is_empty() {
            Err(NotSetError::ApiUrl)
        } else if self.file.as_str().is_empty() {
            Err(NotSetError::File)
        } else if self.wireguard_file.as_str().is_empty() {
            Err(NotSetError::WireguardFile)
        } else {
            Ok(self)
        }
    }
}

impl WireGuard {
    /// A fresh record for first boot: stamped with the device's timestamp
    /// and identifiers, with empty tunnel fields and the well-known
    /// control-plane URL and file locations.
    pub fn new(created_at: u64, wireguard_uuid: String, device_uuid: String) -> (r: WireGuard)
        ensures
            r@.created_at == created_at,
            r@.uuid == wireguard_uuid@,
            r@.device_uuid == device_uuid@,
            r@.interface.private_key.len() == 0,
            r@.interface.address.len() == 0,
            r@.interface.listen_port is None,
            r@.peers.len() == 0,
            r@.api_url == "https://api.roboticsdeployment.com/wireguard"@,
            r@.file == "/etc/rd/wireguard.yaml"@,
            r@.wireguard_file == "/etc/wireguard/rd0.conf"@,
    {
        WireGuard {
            created_at,
            device_uuid,
            uuid: wireguard_uuid,
            interface: Interface {
                private_key: String::new(),
                address: String::new(),
                listen_port: None,
            },
            peers: Vec::new(),
            api_url: ("https://api.roboticsdeployment.com/wireguard").to_owned(),
            file: ("/etc/rd/wireguard.yaml").to_owned(),
            wireguard_file: ("/etc/wireguard/rd0.conf").to_owned(),
        }
    }
}

impl Default for WireGuard {
    /// The all-unset record: zero timestamp, empty identifiers.
    fn default() -> (r: Self)
        ensures
            r@.created_at == 0,
            r@.uuid.len() == 0,
            r@.device_uuid.len() == 0,
            r@.interface.private_key.len() == 0,
            r@.interface.address.len() == 0,
            r@.interface.listen_port is None,
            r@.peers.len() == 0,
            r@.api_url == "https://api.roboticsdeployment.com/wireguard"@,
            r@.file == "/etc/rd/wireguard.yaml"@,
            r@.wireguard_file == "/etc/wireguard/rd0.conf"@,
    {
        Self::new(0, String::new(), String::new())
    }
}

} // verus!
