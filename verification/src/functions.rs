//! The configuration resolver: the bootstrap state machine that turns the
//! outcome of loading, validating, fetching and saving into the next step,
//! for the device identity and for the WireGuard peer set.
//!
//! These functions are pure decisions. The caller performs the file reads,
//! the remote fetch and the save, and hands their outcomes in as plain
//! values; a fetch is made exactly when the decision here asks for one.

use vstd::prelude::*;

use crate::errors::NotSetError;
use crate::models::Device;
use crate::models::Validatable;
use crate::models::WireGuard;

verus! {

/// Why device resolution went fatal.
#[derive(Debug, Clone, Copy, PartialEq, Eq, Structural)]
pub enum DeviceFailure {
    /// The device document could not be read; identity is unrecoverable
    /// without operator intervention.
    LoadFailed,
    /// The fleet assignment is missing. Remediation is impossible by
    /// policy: the control plane needs a fleet to route the request.
    FleetNotSet,
    /// The remote fetch failed; bootstrap cannot continue.
    FetchFailed,
    /// Validation reported a kind the resolver has no remedy for.
    Unhandled(NotSetError),
}

/// The next step of device resolution.
#[derive(Debug)]
pub enum DeviceResolution {
    /// The loaded record validated: it is the canonical device.
    UseDevice(Device),
    /// Only the identity is missing: remediate by fetching with this
    /// partial record.
    FetchDevice(Device),
    /// Bootstrap cannot continue.
    DeviceFatal(DeviceFailure),
}

/// The step device resolution must take, as plain data.
#[derive(Debug, Clone, Copy, PartialEq, Eq, Structural)]
pub enum DevicePlan {
    Use,
    Fetch,
    Fatal(DeviceFailure),
}

/// The decision the resolver owes for a loaded device document: accept a
/// valid record; go fatal on a missing fleet, by policy; remediate by
/// fetch when only the identity is missing; treat every other diagnosis as
/// unhandled and fatal.
pub open spec fn device_plan(d: Device) -> DevicePlan {
    match d.validation() {
        Ok(()) => DevicePlan::Use,
        Err(NotSetError::Fleet) => DevicePlan::Fatal(DeviceFailure::FleetNotSet),
        Err(NotSetError::Uuid) => DevicePlan::Fetch,
        Err(e) => DevicePlan::Fatal(DeviceFailure::Unhandled(e)),
    }
}

/// What becomes of a remote-fetch outcome: a fetched record is the new
/// canonical device, taken as-is without re-validation; a failed fetch is
/// fatal.
pub open spec fn device_fetch_outcome(fetched: Option<Device>) -> Result<Device, DeviceFailure> {
    match fetched {
        Some(d) => Ok(d),
        None => Err(DeviceFailure::FetchFailed),
    }
}

/// Decide device resolution from the outcome of loading the device
/// document (`None`: the document could not be read).
pub fn initialize_device_config(loaded: Option<Device>) -> (r: DeviceResolution)
    ensures
        match loaded {
            None => r matches DeviceResolution::DeviceFatal(f) && f == DeviceFailure::LoadFailed,
            Some(d) => match device_plan(d) {
                DevicePlan::Use => r matches DeviceResolution::UseDevice(u) && u == d,
                DevicePlan::Fetch => r matches DeviceResolution::FetchDevice(u) && u == d,
                DevicePlan::Fatal(f) => r matches DeviceResolution::DeviceFatal(g) && g == f,
            },
        },
{
    match loaded {
        None => DeviceResolution::DeviceFatal(DeviceFailure::LoadFailed),
        Some(d) => {
            let verdict = match d.validate() {
                Ok(_) => None,
                Err(e) => Some(e),
            };
            match verdict {
                None => DeviceResolution::UseDevice(d),
                Some(NotSetError::Fleet) => DeviceResolution::DeviceFatal(
                    DeviceFailure::FleetNotSet,
                ),
                Some(NotSetError::Uuid) => DeviceResolution::FetchDevice(d),
                Some(e) => DeviceResolution::DeviceFatal(DeviceFailure::Unhandled(e)),
            }
        },
    }
}

/// Decide device resolution from the outcome of the remote fetch.
pub fn device_config_after_fetch(fetched: Option<Device>) -> (r: Result<Device, DeviceFailure>)
    ensures
        r == device_fetch_outcome(fetched),
{
    match fetched {
        Some(d) => Ok(d),
        None => Err(DeviceFailure::FetchFailed),
    }
}

/// Law: for every device document whose fleet assignment is empty,
/// resolution goes fatal and never asks for a remote fetch. Excluded is
/// the one family of documents where an earlier check diverts resolution:
/// those with a timestamp set but no identity, where the identity check
/// fires first and remediation is attempted instead.
pub proof fn lemma_fleet_unset_never_fetches(d: Device)
    requires
        d@.fleet_uuid.len() == 0,
        d@.created_at == 0 || d@.uuid.len() > 0,
    ensures
        device_plan(d) matches DevicePlan::Fatal(_),
        device_plan(d) != DevicePlan::Fetch,
{
}

/// Law: for every device document with a timestamp and a fleet assignment
/// but no identity, resolution asks for exactly one remote fetch — the
/// plan is `Fetch`, and the fetch outcome is terminal either way — and a
/// successfully fetched record is accepted as canonical without being
/// re-validated.
pub proof fn lemma_uuid_unset_fetches_once(d: Device)
    requires
        d@.created_at != 0,
        d@.uuid.len() == 0,
        d@.fleet_uuid.len() > 0,
    ensures
        device_plan(d) == DevicePlan::Fetch,
        forall|f: Device| #[trigger]
            device_fetch_outcome(Some(f)) == Ok::<Device, DeviceFailure>(f),
{
}

/// Why WireGuard resolution went fatal.
#[derive(Debug, Clone, Copy, PartialEq, Eq, Structural)]
pub enum WireguardFailure {
    /// A document that loaded without I/O error failed validation: treated
    /// as corruption or tampering, never remediated.
    Invalid(NotSetError),
    /// The remote fetch failed; bootstrap cannot continue.
    FetchFailed,
    /// The fetched record could not be persisted; proceeding would let the
    /// next boot diverge from what was activated.
    SaveFailed,
}

/// The next step of WireGuard resolution.
#[derive(Debug)]
pub enum WireguardResolution {
    /// The loaded record validated: use it.
    UseWireguard(WireGuard),
    /// No local record: fetch with this fresh one, stamped from the
    /// resolved device.
    FetchWireguard(WireGuard),
    /// Bootstrap cannot continue.
    WireguardFatal(WireguardFailure),
}

/// Decide WireGuard resolution from the outcome of loading the structured
/// document (`None`: no readable local record — expected on first boot and
/// always remediated by a fetch, never fatal here). A record that did
/// load is validated, and any failure there is fatal.
pub fn initialize_wireguard_config(device: &Device, loaded: Option<WireGuard>) -> (r:
    WireguardResolution)
    ensures
        match loaded {
            Some(w) => match w.validation() {
                Ok(()) => r matches WireguardResolution::UseWireguard(u) && u == w,
                Err(e) => r matches WireguardResolution::WireguardFatal(f) && f
                    == WireguardFailure::Invalid(e),
            },
            None => r matches WireguardResolution::FetchWireguard(f) && f@.created_at
                == device@.created_at && f@.uuid == device@.wireguard_uuid && f@.device_uuid
                == device@.uuid && f@.interface.private_key.len() == 0
                && f@.interface.address.len() == 0 && f@.interface.listen_port is None
                && f@.peers.len() == 0 && f@.api_url
                == "https://api.roboticsdeployment.com/wireguard"@ && f@.file
                == "/etc/rd/wireguard.yaml"@ && f@.wireguard_file == "/etc/wireguard/rd0.conf"@,
        },
{
    match loaded {
        Some(cfg) => match cfg.validate() {
            Ok(_) => WireguardResolution::UseWireguard(cfg),
            Err(e) => WireguardResolution::WireguardFatal(WireguardFailure::Invalid(e)),
        },
        None => WireguardResolution::FetchWireguard(
            WireGuard::new(
                device.created_at,
                device.wireguard_uuid.clone(),
                device.uuid.clone(),
            ),
        ),
    }
}

/// Decide WireGuard resolution from the outcome of the remote fetch: a
/// fetched record must be persisted next; a failed fetch is fatal.
pub fn wireguard_after_fetch(fetched: Option<WireGuard>) -> (r: Result<
    WireGuard,
    WireguardFailure,
>)
    ensures
        match fetched {
            Some(w) => r matches Ok(u) && u == w,
            None => r matches Err(f) && f == WireguardFailure::FetchFailed,
        },
{
    match fetched {
        Some(w) => Ok(w),
        None => Err(WireguardFailure::FetchFailed),
    }
}

/// Decide WireGuard resolution from the outcome of persisting the fetched
/// record: only a saved record is handed downstream.
pub fn wireguard_after_save(wg: WireGuard, saved: bool) -> (r: Result<WireGuard, WireguardFailure>)
    ensures
        saved ==> (r matches Ok(u) && u == wg),
        !saved ==> (r matches Err(f) && f == WireguardFailure::SaveFailed),
{
    if saved {
        Ok(wg)
    } else {
        Err(WireguardFailure::SaveFailed)
    }
}

/// Stamp the resolved record with the device it belongs to before it is
/// handed downstream; every other field is kept.
pub fn stamp_device_uuid(wg: WireGuard, device_uuid: String) -> (r: WireGuard)
    ensures
        r@.device_uuid == device_uuid@,
        r@.created_at == wg@.created_at,
        r@.uuid == wg@.uuid,
        r@.interface == wg@.interface,
        r@.peers == wg@.peers,
        r@.api_url == wg@.api_url,
        r@.file == wg@.file,
        r@.wireguard_file == wg@.wireguard_file,
{
    WireGuard { device_uuid, ..wg }
}

} // verus!
