use rdembedded::models::Device;
use rdembedded::models::Interface;
use rdembedded::models::Peer;
use rdembedded::models::Validatable;
use rdembedded::models::WireGuard;
use rdembedded::NotSetError;

fn empty_device() -> Device {
    Device {
        created_at: 0,
        uuid: String::new(),
        fleet_uuid: String::new(),
        api_url: String::new(),
        file: String::new(),
        wireguard_uuid: String::new(),
    }
}

fn full_device() -> Device {
    Device {
        created_at: 1700000000,
        uuid: String::from("1d5cbf30-3b6c-4ef8-a429-92e0e14d7c88"),
        fleet_uuid: String::from("9a0b8dc6-4b3f-4e5d-9d2c-6f9e3b1a2c4d"),
        api_url: String::from("https://api.roboticsdeployment.com/device"),
        file: String::from("tests/device_cfg.yaml"),
        wireguard_uuid: String::from("3f1a9d2e-8c47-4b6f-b1d0-5e2a7c9f4b61"),
    }
}

fn full_wireguard() -> WireGuard {
    let mut wg = WireGuard::new(
        1700000000,
        String::from("3f1a9d2e-8c47-4b6f-b1d0-5e2a7c9f4b61"),
        String::from("1d5cbf30-3b6c-4ef8-a429-92e0e14d7c88"),
    );
    wg.interface = Interface {
        private_key: String::from("aFakePrivateKeyForTestingOnly="),
        address: String::from("10.0.0.2/24"),
        listen_port: Some(51820),
    };
    wg.peers = vec![Peer {
        public_key: String::from("aFakePublicKeyForTestingOnly="),
        allowed_ips: vec![String::from("10.0.0.1/32")],
        endpoint: Some(String::from("hub.example.com:51820")),
    }];
    wg
}

#[test]
fn tests_test_empty_config() {
    // The empty device document: every field at its zero value.
    let conf = empty_device();
    let result = conf.validate();
    match result {
        Err(e) => match e {
            NotSetError::CreatedAt => {}
            _ => {
                panic!("Expected Uuid error, got a different error: {}", e.describe());
            }
        },
        Ok(_) => {
            panic!("Config should be invalid but was validated successfully");
        }
    }
}

#[test]
fn tests_test_bare_config() {
    // The bare device document: timestamp and identity, but no fleet.
    let mut conf = full_device();
    conf.fleet_uuid = String::new();
    let result = conf.validate();

    match result {
        Err(e) => match e {
            NotSetError::Fleet => {}
            _ => {
                panic!("Expected Fleet error, got a different error: {}", e.describe());
            }
        },
        Ok(_) => {
            panic!("Config should be invalid but was validated successfully");
        }
    }
}

#[test]
fn tests_test_config() {
    let conf = full_device();
    let result = conf.validate();
    if let Err(e) = result {
        panic!("Config should be valid but was invalid: {}", e.describe());
    }
}

#[test]
fn wireguard_test_empty_config() {
    // The empty peer-set document: every field at its zero value.
    let conf = WireGuard::default();
    let result = conf.validate();
    match result {
        Err(e) => match e {
            NotSetError::CreatedAt => {}
            _ => {
                panic!("Expected Uuid error, got a different error: {}", e.describe());
            }
        },
        Ok(_) => {
            panic!("Config should be invalid but was validated successfully");
        }
    }
}

#[test]
fn wireguard_test_bare_config() {
    // The bare peer-set document: a timestamp, but no tunnel fields.
    let mut conf = full_wireguard();
    conf.interface.private_key = String::new();
    let result = conf.validate();
    match result {
        Err(e) => match e {
            NotSetError::PrivateKey => {}
            _ => {
                panic!("Expected Fleet error, got a different error: {}", e.describe());
            }
        },
        Ok(_) => {
            panic!("Config should be invalid but was validated successfully");
        }
    }
}

#[test]
fn wireguard_test_config() {
    let conf = full_wireguard();
    let result = conf.validate();
    if let Err(e) = result {
        panic!("Config should be valid but was invalid: {}", e.describe());
    }
}

#[test]
fn test_main() {
    println!("Running main test");
}
