use rdembedded::functions::initialize_device_config;
use rdembedded::functions::device_config_after_fetch;
use rdembedded::functions::initialize_wireguard_config;
use rdembedded::functions::wireguard_after_fetch;
use rdembedded::functions::wireguard_after_save;
use rdembedded::functions::stamp_device_uuid;
use rdembedded::functions::DeviceFailure;
use rdembedded::functions::DeviceResolution;
use rdembedded::functions::WireguardFailure;
use rdembedded::functions::WireguardResolution;
use rdembedded::models::Device;
use rdembedded::models::Interface;
use rdembedded::models::Peer;
use rdembedded::models::WireGuard;
use rdembedded::NotSetError;

fn device(created_at: u64, uuid: &str, fleet: &str) -> Device {
    Device {
        created_at,
        uuid: String::from(uuid),
        fleet_uuid: String::from(fleet),
        api_url: String::from("https://api.roboticsdeployment.com/device"),
        file: String::from("/etc/rd/device.yaml"),
        wireguard_uuid: String::from("3f1a9d2e-8c47-4b6f-b1d0-5e2a7c9f4b61"),
    }
}

fn valid_wireguard() -> WireGuard {
    let mut wg = WireGuard::new(
        1700000000,
        String::from("3f1a9d2e-8c47-4b6f-b1d0-5e2a7c9f4b61"),
        String::from("1d5cbf30-3b6c-4ef8-a429-92e0e14d7c88"),
    );
    wg.interface = Interface {
        private_key: String::from("k="),
        address: String::from("10.0.0.2/24"),
        listen_port: None,
    };
    wg.peers = vec![Peer {
        public_key: String::from("p="),
        allowed_ips: vec![String::from("10.0.0.1/32")],
        endpoint: Some(String::from("hub.example.com:51820")),
    }];
    wg
}

#[test]
fn device_load_failure_is_fatal() {
    let r = initialize_device_config(None);
    assert!(matches!(
        r,
        DeviceResolution::DeviceFatal(DeviceFailure::LoadFailed)
    ));
}

#[test]
fn device_fleet_unset_is_fatal_without_fetch() {
    // Fleet missing, everything else present: fatal, never remediated.
    let r = initialize_device_config(Some(device(1, "some-uuid", "")));
    assert!(matches!(
        r,
        DeviceResolution::DeviceFatal(DeviceFailure::FleetNotSet)
    ));
}

#[test]
fn device_uuid_unset_fetches() {
    let d = device(1, "", "fleet-uuid");
    let r = initialize_device_config(Some(d));
    match r {
        DeviceResolution::FetchDevice(u) => assert_eq!(u.fleet_uuid, "fleet-uuid"),
        _ => panic!("expected a fetch decision"),
    }
}

#[test]
fn device_valid_is_used_as_is() {
    let d = device(1, "some-uuid", "fleet-uuid");
    let r = initialize_device_config(Some(d));
    match r {
        DeviceResolution::UseDevice(u) => assert_eq!(u.uuid, "some-uuid"),
        _ => panic!("expected the loaded device to be used"),
    }
}

#[test]
fn device_other_validation_failures_are_unhandled() {
    let r = initialize_device_config(Some(device(0, "", "")));
    assert!(matches!(
        r,
        DeviceResolution::DeviceFatal(DeviceFailure::Unhandled(NotSetError::CreatedAt))
    ));
}

#[test]
fn device_fetched_record_is_accepted_unvalidated() {
    // The fetched record is canonical as-is: even an empty one passes.
    let empty = device(0, "", "");
    let r = device_config_after_fetch(Some(empty));
    match r {
        Ok(d) => assert_eq!(d.created_at, 0),
        Err(_) => panic!("a fetched device must be accepted"),
    }
    let r2 = device_config_after_fetch(None);
    assert_eq!(r2.unwrap_err(), DeviceFailure::FetchFailed);
}

#[test]
fn wireguard_valid_loaded_record_is_used() {
    let d = device(1700000000, "1d5cbf30-3b6c-4ef8-a429-92e0e14d7c88", "f");
    let wg = valid_wireguard();
    let r = initialize_wireguard_config(&d, Some(wg));
    assert!(matches!(r, WireguardResolution::UseWireguard(_)));
}

#[test]
fn wireguard_empty_peers_is_fatal() {
    // A loaded document with every field set except its peer list is
    // diagnosed as PeersNotSet and resolution goes fatal.
    let d = device(1700000000, "1d5cbf30-3b6c-4ef8-a429-92e0e14d7c88", "f");
    let mut wg = valid_wireguard();
    wg.peers = Vec::new();
    let r = initialize_wireguard_config(&d, Some(wg));
    assert!(matches!(
        r,
        WireguardResolution::WireguardFatal(WireguardFailure::Invalid(NotSetError::Peers))
    ));
}

#[test]
fn wireguard_missing_record_fetches_fresh_stamped() {
    let d = device(1700000000, "1d5cbf30-3b6c-4ef8-a429-92e0e14d7c88", "f");
    let r = initialize_wireguard_config(&d, None);
    match r {
        WireguardResolution::FetchWireguard(f) => {
            assert_eq!(f.created_at, 1700000000);
            assert_eq!(f.uuid, "3f1a9d2e-8c47-4b6f-b1d0-5e2a7c9f4b61");
            assert_eq!(f.device_uuid, "1d5cbf30-3b6c-4ef8-a429-92e0e14d7c88");
            assert_eq!(f.peers.len(), 0);
            assert_eq!(f.api_url, "https://api.roboticsdeployment.com/wireguard");
            assert_eq!(f.file, "/etc/rd/wireguard.yaml");
            assert_eq!(f.wireguard_file, "/etc/wireguard/rd0.conf");
        }
        _ => panic!("expected a fetch decision"),
    }
}

#[test]
fn wireguard_fetch_and_save_outcomes() {
    let wg = valid_wireguard();
    match wireguard_after_fetch(Some(wg)) {
        Ok(w) => {
            let saved = wireguard_after_save(w, true).unwrap();
            assert_eq!(saved.created_at, 1700000000);
            let lost = wireguard_after_save(saved, false);
            assert_eq!(lost.unwrap_err(), WireguardFailure::SaveFailed);
        }
        Err(_) => panic!("a fetched record must be kept"),
    }
    let failed = wireguard_after_fetch(None);
    assert_eq!(failed.unwrap_err(), WireguardFailure::FetchFailed);
}

#[test]
fn stamping_overwrites_only_the_device_uuid() {
    let wg = valid_wireguard();
    let stamped = stamp_device_uuid(wg, String::from("new-uuid"));
    assert_eq!(stamped.device_uuid, "new-uuid");
    assert_eq!(stamped.uuid, "3f1a9d2e-8c47-4b6f-b1d0-5e2a7c9f4b61");
    assert_eq!(stamped.created_at, 1700000000);
}
