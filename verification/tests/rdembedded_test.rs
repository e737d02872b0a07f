use rdembedded::config::DeviceConfig;
use rdembedded::ValidationError;

#[test]
fn rdembedded_test_test_empty_config() {
    let conf = DeviceConfig::default();
    let result = conf.validate();
    match result {
        Err(e) => match e {
            ValidationError::UuidNotSet => {}
            _ => panic!(
                "Expected UuidNotSet error, got a different error: {}",
                e.describe()
            ),
        },
        Ok(_) => panic!("Config should be invalid but was validated successfully"),
    }
}

#[test]
fn rdembedded_test_test_bare_config() {
    // The bare document: an identity is present, but no fleet assignment.
    let conf = DeviceConfig::default()
        .set_file(String::from("tests/bare_cfg.yaml"))
        .set_uuid(String::from("1d5cbf30-3b6c-4ef8-a429-92e0e14d7c88"));
    let result = conf.validate();

    match result {
        Err(e) => match e {
            ValidationError::FleetNotSet => {}
            _ => panic!(
                "Expected FleetNotSet error, got a different error: {}",
                e.describe()
            ),
        },
        Ok(_) => panic!("Config should be invalid but was validated successfully"),
    }
}

#[test]
fn rdembedded_test_test_config() {
    // The complete document: identity and fleet both assigned.
    let conf = DeviceConfig::default()
        .set_file(String::from("tests/cfg.yaml"))
        .set_uuid(String::from("1d5cbf30-3b6c-4ef8-a429-92e0e14d7c88"))
        .set_fleet_uuid(String::from("9a0b8dc6-4b3f-4e5d-9d2c-6f9e3b1a2c4d"));
    let result = conf.validate();

    match result {
        Err(e) => panic!("Config should be valid but was invalid: {}", e.describe()),
        Ok(_) => {}
    }
}
