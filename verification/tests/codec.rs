use rdembedded::models::Interface;
use rdembedded::models::Peer;
use rdembedded::models::WireGuard;
use rdembedded::conf::decode_conf;

fn sample_wireguard(peers: Vec<Peer>, listen_port: Option<u16>) -> WireGuard {
    let mut wg = WireGuard::new(
        1700000000,
        String::from("3f1a9d2e-8c47-4b6f-b1d0-5e2a7c9f4b61"),
        String::from("1d5cbf30-3b6c-4ef8-a429-92e0e14d7c88"),
    );
    wg.interface = Interface {
        private_key: String::from("privKeyAAA="),
        address: String::from("10.0.0.2/24"),
        listen_port,
    };
    wg.peers = peers;
    wg
}

#[test]
fn encode_two_allowed_ips_exact_text() {
    // A peer with two allowed addresses encodes them comma-joined on one
    // line, and that line decodes back to the identical two-element list.
    let peer = Peer {
        public_key: String::from("pubKeyBBB="),
        allowed_ips: vec![String::from("10.0.0.1/32"), String::from("10.0.0.2/32")],
        endpoint: None,
    };
    let wg = sample_wireguard(vec![peer], None);
    let text = wg.to_conf_string();
    assert!(text.contains("AllowedIPs = 10.0.0.1/32,10.0.0.2/32"));

    let (_iface, peers) = decode_conf(&text);
    assert_eq!(peers.len(), 1);
    assert_eq!(
        peers[0].allowed_ips,
        vec![String::from("10.0.0.1/32"), String::from("10.0.0.2/32")]
    );
}

#[test]
fn encode_exact_full_text() {
    let peer = Peer {
        public_key: String::from("pubKeyBBB="),
        allowed_ips: vec![String::from("10.0.0.1/32")],
        endpoint: Some(String::from("hub.example.com:51820")),
    };
    let wg = sample_wireguard(vec![peer], Some(51820));
    let text = wg.to_conf_string();
    let expected = "[Interface]\n\
                    PrivateKey = privKeyAAA=\n\
                    Address = 10.0.0.2/24\n\
                    ListenPort = 51820\n\
                    \n\
                    [Peer]\n\
                    PublicKey = pubKeyBBB=\n\
                    AllowedIPs = 10.0.0.1/32\n\
                    Endpoint = hub.example.com:51820\n";
    assert_eq!(text, expected);
}

#[test]
fn round_trip_with_optional_fields() {
    let peer_a = Peer {
        public_key: String::from("pubA="),
        allowed_ips: vec![String::from("10.0.0.1/32"), String::from("10.1.0.0/16")],
        endpoint: Some(String::from("hub.example.com:51820")),
    };
    let peer_b = Peer {
        public_key: String::from("pubB="),
        allowed_ips: vec![String::from("10.0.0.3/32")],
        endpoint: None,
    };
    let wg = sample_wireguard(vec![peer_a, peer_b], Some(443));
    let text = wg.to_conf_string();

    let (iface, peers) = decode_conf(&text);
    assert_eq!(iface.private_key, "privKeyAAA=");
    assert_eq!(iface.address, "10.0.0.2/24");
    assert_eq!(iface.listen_port, Some(443));
    assert_eq!(peers.len(), 2);
    assert_eq!(peers[0].public_key, "pubA=");
    assert_eq!(
        peers[0].allowed_ips,
        vec![String::from("10.0.0.1/32"), String::from("10.1.0.0/16")]
    );
    assert_eq!(peers[0].endpoint, Some(String::from("hub.example.com:51820")));
    assert_eq!(peers[1].public_key, "pubB=");
    assert_eq!(peers[1].allowed_ips, vec![String::from("10.0.0.3/32")]);
    assert_eq!(peers[1].endpoint, None);
}

#[test]
fn round_trip_without_optional_fields() {
    // No listen port and no endpoint: the lines are omitted entirely and
    // both fields come back absent.
    let peer = Peer {
        public_key: String::from("pubA="),
        allowed_ips: vec![String::from("10.0.0.1/32")],
        endpoint: None,
    };
    let wg = sample_wireguard(vec![peer], None);
    let text = wg.to_conf_string();
    assert!(!text.contains("ListenPort"));
    assert!(!text.contains("Endpoint"));

    let (iface, peers) = decode_conf(&text);
    assert_eq!(iface.listen_port, None);
    assert_eq!(peers.len(), 1);
    assert_eq!(peers[0].endpoint, None);
}

#[test]
fn decode_is_total_on_junk() {
    // Unrecognised keys and missing headers never fail: fields that are
    // never matched simply keep their zero values.
    let (iface, peers) = decode_conf("PrivateKey = orphaned\nnonsense ===\n\tgarbage");
    assert_eq!(iface.private_key, "");
    assert_eq!(iface.address, "");
    assert_eq!(iface.listen_port, None);
    assert_eq!(peers.len(), 0);

    let (iface2, peers2) = decode_conf("");
    assert_eq!(iface2.private_key, "");
    assert_eq!(peers2.len(), 0);
}

#[test]
fn decode_ignores_unknown_keys() {
    let text = "[Interface]\n\
                PrivateKey = k=\n\
                MTU = 1420\n\
                Address = 10.0.0.2/24\n\
                \n\
                [Peer]\n\
                PublicKey = p=\n\
                PersistentKeepalive = 25\n\
                AllowedIPs = 10.0.0.1/32\n";
    let (iface, peers) = decode_conf(text);
    assert_eq!(iface.private_key, "k=");
    assert_eq!(iface.address, "10.0.0.2/24");
    assert_eq!(peers.len(), 1);
    assert_eq!(peers[0].public_key, "p=");
}

#[test]
fn decode_bad_listen_port_stays_unset() {
    let text = "[Interface]\nPrivateKey = k=\nAddress = a\nListenPort = 70000\n";
    let (iface, _) = decode_conf(text);
    assert_eq!(iface.listen_port, None);

    let text2 = "[Interface]\nListenPort = 51820\n";
    let (iface2, _) = decode_conf(text2);
    assert_eq!(iface2.listen_port, Some(51820));
}

#[test]
fn load_from_wireguard_file_keeps_identity() {
    let wg = sample_wireguard(Vec::new(), None);
    let text = "[Interface]\nPrivateKey = fromFile=\nAddress = 10.9.9.9/32\n";
    let loaded = wg.load_from_wireguard_file(text);
    assert_eq!(loaded.interface.private_key, "fromFile=");
    assert_eq!(loaded.interface.address, "10.9.9.9/32");
    assert_eq!(loaded.created_at, 1700000000);
    assert_eq!(loaded.uuid, "3f1a9d2e-8c47-4b6f-b1d0-5e2a7c9f4b61");
    assert_eq!(loaded.device_uuid, "1d5cbf30-3b6c-4ef8-a429-92e0e14d7c88");
    assert_eq!(loaded.file, "/etc/rd/wireguard.yaml");
}
