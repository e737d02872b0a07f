use rdembedded::config::Config;
use rdembedded::embedded::config::Config as EmbeddedConfig;
use rdembedded::embedded::config::DeviceConfig as EmbeddedDeviceConfig;
use rdembedded::wg::WgConfig;

#[test]
fn config_init_defaults() {
    let cfg = Config::init();
    let device = cfg.get_device();
    assert_eq!(device.get_uuid(), "");
    assert_eq!(device.get_fleet_uuid(), "");
    assert_eq!(device.get_api_url(), "https://api.roboticsdeployment.com/device");
    assert_eq!(device.get_file(), "/etc/rd/cfg.yaml");
    let wg = cfg.get_wireguard();
    assert_eq!(wg.get_uuid(), "");
    assert_eq!(wg.get_hub_ip(), "");
    assert_eq!(wg.get_hub_port(), 0);
    assert_eq!(wg.get_device_ip(), "");
    assert_eq!(wg.get_api_url(), "https://api.roboticsdeployment.com/wireguard");
    assert_eq!(wg.get_file(), "/etc/wireguard/rd0.conf");
}

#[test]
fn config_setters_replace_one_field() {
    let cfg = Config::init();
    let wg = cfg
        .get_wireguard()
        .clone()
        .set_uuid(String::from("u"))
        .set_hub_ip(String::from("203.0.113.7"))
        .set_hub_port(51820)
        .set_device_ip(String::from("10.0.0.2"))
        .set_api_url(String::from("https://example.com"))
        .set_file(String::from("/tmp/rd0.conf"));
    assert_eq!(wg.get_uuid(), "u");
    assert_eq!(wg.get_hub_ip(), "203.0.113.7");
    assert_eq!(wg.get_hub_port(), 51820);
    assert_eq!(wg.get_device_ip(), "10.0.0.2");
    assert_eq!(wg.get_api_url(), "https://example.com");
    assert_eq!(wg.get_file(), "/tmp/rd0.conf");
}

#[test]
fn wg_config_default_values() {
    let cfg = WgConfig::default();
    assert_eq!(cfg.get_hub_ip(), "");
    assert_eq!(cfg.get_hub_port(), 0);
    assert_eq!(cfg.get_device_ip(), "");
    assert_eq!(cfg.get_file(), "/etc/wireguard/rd0.conf");
}

#[test]
fn embedded_config_accessors() {
    let device = EmbeddedDeviceConfig::new(
        String::from("550e8400-e29b-41d4-a716-446655440000"),
        String::from("rd0"),
    );
    let cfg = EmbeddedConfig::new(device);
    assert_eq!(cfg.get_device().get_uuid(), "550e8400-e29b-41d4-a716-446655440000");
    assert_eq!(cfg.get_device().get_interface(), "rd0");
}
