use rdembedded::config::DeviceConfig;
use rdembedded::models::Interface;
use rdembedded::models::Peer;
use rdembedded::models::Validatable;
use rdembedded::models::WireGuard;
use rdembedded::NotSetError;
use rdembedded::ValidationError;

fn valid_wireguard() -> WireGuard {
    let mut wg = WireGuard::new(1, String::from("w"), String::from("d"));
    wg.interface = Interface {
        private_key: String::from("k="),
        address: String::from("10.0.0.2/24"),
        listen_port: None,
    };
    wg.peers = vec![Peer {
        public_key: String::from("p="),
        allowed_ips: vec![String::from("10.0.0.1/32")],
        endpoint: None,
    }];
    wg
}

#[test]
fn wireguard_validation_priority_order() {
    // One field unset at a time, in priority order: each is the single
    // reported cause.
    let mut wg = valid_wireguard();
    wg.created_at = 0;
    assert!(matches!(wg.validate(), Err(NotSetError::CreatedAt)));

    let mut wg = valid_wireguard();
    wg.interface.private_key = String::new();
    assert!(matches!(wg.validate(), Err(NotSetError::PrivateKey)));

    let mut wg = valid_wireguard();
    wg.interface.address = String::new();
    assert!(matches!(wg.validate(), Err(NotSetError::Address)));

    let mut wg = valid_wireguard();
    wg.peers = Vec::new();
    assert!(matches!(wg.validate(), Err(NotSetError::Peers)));

    let mut wg = valid_wireguard();
    wg.api_url = String::new();
    assert!(matches!(wg.validate(), Err(NotSetError::ApiUrl)));

    let mut wg = valid_wireguard();
    wg.file = String::new();
    assert!(matches!(wg.validate(), Err(NotSetError::File)));

    let mut wg = valid_wireguard();
    wg.wireguard_file = String::new();
    assert!(matches!(wg.validate(), Err(NotSetError::WireguardFile)));
}

#[test]
fn wireguard_first_cause_wins() {
    // With several fields unset the highest-priority one is diagnosed.
    let mut wg = valid_wireguard();
    wg.interface.private_key = String::new();
    wg.peers = Vec::new();
    wg.api_url = String::new();
    assert!(matches!(wg.validate(), Err(NotSetError::PrivateKey)));
}

#[test]
fn bootstrap_device_validation_kinds() {
    let base = || {
        DeviceConfig::default()
            .set_uuid(String::from("u"))
            .set_fleet_uuid(String::from("f"))
    };

    assert!(base().validate().is_ok());

    let d = base().set_uuid(String::new());
    assert!(matches!(d.validate(), Err(ValidationError::UuidNotSet)));

    let d = base().set_fleet_uuid(String::new());
    assert!(matches!(d.validate(), Err(ValidationError::FleetNotSet)));

    let d = base().set_api_url(String::new());
    assert!(matches!(d.validate(), Err(ValidationError::ApiUrlNotSet)));

    let d = base().set_file(String::new());
    assert!(matches!(d.validate(), Err(ValidationError::FileNotSet)));
}

#[test]
fn error_descriptions_name_the_field() {
    assert_eq!(NotSetError::Fleet.describe(), "Fleet is not set");
    assert_eq!(NotSetError::WireguardFile.describe(), "Wireguard File is not set");
    assert_eq!(ValidationError::UuidNotSet.describe(), "UUID is not set");
}
