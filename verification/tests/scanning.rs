use rdembedded::config::Wireguard;
use rdembedded::embedded::wg::get_config as embedded_get_config;
use rdembedded::textutil::parse_u16;
use rdembedded::textutil::u16_string;
use rdembedded::wg::get_config;
use rdembedded::wg::WgScanError;

fn conf_lines() -> Vec<String> {
    vec![
        String::from("[Interface]"),
        String::from("PrivateKey = k="),
        String::from("Address = 10.0.0.2/24"),
        String::from(""),
        String::from("[Peer]"),
        String::from("PublicKey = p="),
        String::from("AllowedIPs = 10.0.0.1/32"),
        String::from("Endpoint = 203.0.113.7:51820"),
    ]
}

#[test]
fn wg_get_config_reads_addressing() {
    let cfg = get_config("/etc/wireguard/rd0.conf", &conf_lines()).unwrap();
    assert_eq!(cfg.get_hub_ip(), "10.0.0.1");
    assert_eq!(cfg.get_hub_port(), 51820);
    assert_eq!(cfg.get_device_ip(), "10.0.0.2");
    assert_eq!(cfg.get_file(), "/etc/wireguard/rd0.conf");
}

#[test]
fn wg_get_config_error_kinds() {
    let empty: Vec<String> = Vec::new();
    assert_eq!(
        get_config("f", &empty).unwrap_err(),
        WgScanError::HubIpNotFound
    );

    let mut no_endpoint = conf_lines();
    no_endpoint.retain(|l| !l.starts_with("Endpoint"));
    assert_eq!(
        get_config("f", &no_endpoint).unwrap_err(),
        WgScanError::HubPortNotFound
    );

    let mut no_address = conf_lines();
    no_address.retain(|l| !l.starts_with("Address"));
    assert_eq!(
        get_config("f", &no_address).unwrap_err(),
        WgScanError::DeviceIpNotFound
    );

    let mut portless = conf_lines();
    portless[7] = String::from("Endpoint = 203.0.113.7");
    assert_eq!(
        get_config("f", &portless).unwrap_err(),
        WgScanError::HubPortFormat
    );

    let mut huge_port = conf_lines();
    huge_port[7] = String::from("Endpoint = 203.0.113.7:99999");
    assert_eq!(
        get_config("f", &huge_port).unwrap_err(),
        WgScanError::HubPortInvalid
    );
}

#[test]
fn wireguard_load_config_reads_addressing() {
    let wg = Wireguard::load_config("/etc/wireguard/rd0.conf", &conf_lines()).unwrap();
    assert_eq!(wg.get_uuid(), "");
    assert_eq!(wg.get_hub_ip(), "10.0.0.1");
    assert_eq!(wg.get_hub_port(), 51820);
    assert_eq!(wg.get_device_ip(), "10.0.0.2");
    assert_eq!(wg.get_api_url(), "https://api.roboticsdeployment.com/wireguard");
    assert_eq!(wg.get_file(), "/etc/wireguard/rd0.conf");
}

#[test]
fn embedded_get_config_reads_hosts() {
    let cfg = embedded_get_config(&conf_lines()).unwrap();
    assert_eq!(cfg.get_hub_ip(), "10.0.0.1");
    assert_eq!(cfg.get_device_ip(), "10.0.0.2");
}

#[test]
fn embedded_get_config_missing_sections() {
    let empty: Vec<String> = Vec::new();
    assert_eq!(
        embedded_get_config(&empty).unwrap_err(),
        WgScanError::HubIpNotFound
    );

    let only_peer = vec![
        String::from("[Peer]"),
        String::from("AllowedIPs = 10.0.0.1/32"),
    ];
    assert_eq!(
        embedded_get_config(&only_peer).unwrap_err(),
        WgScanError::DeviceIpNotFound
    );
}

#[test]
fn scan_needs_the_section_header_first() {
    // A key line before its section header is never matched.
    let lines = vec![
        String::from("AllowedIPs = 10.0.0.1/32"),
        String::from("Endpoint = 1.2.3.4:51820"),
        String::from("Address = 10.0.0.2/24"),
    ];
    assert_eq!(get_config("f", &lines).unwrap_err(), WgScanError::HubIpNotFound);
}

#[test]
fn port_text_round_trips() {
    assert_eq!(u16_string(0), "0");
    assert_eq!(u16_string(51820), "51820");
    assert_eq!(u16_string(65535), "65535");
    assert_eq!(parse_u16("51820"), Some(51820));
    assert_eq!(parse_u16("+123"), Some(123));
    assert_eq!(parse_u16("65535"), Some(65535));
    assert_eq!(parse_u16("65536"), None);
    assert_eq!(parse_u16(""), None);
    assert_eq!(parse_u16("+"), None);
    assert_eq!(parse_u16("12a"), None);
    assert_eq!(parse_u16("000000000000051820"), Some(51820));
    assert_eq!(parse_u16("99999"), None);
    assert_eq!(parse_u16("0000000000000001"), Some(1));
}
