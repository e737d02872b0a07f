use rdembedded::heartbeat::bind_phase;
use rdembedded::heartbeat::bind_step;
use rdembedded::heartbeat::endpoint_host_port;
use rdembedded::heartbeat::send_phase;
use rdembedded::heartbeat::heartbeat_payload;
use rdembedded::heartbeat::heartbeat_payload_text;
use rdembedded::heartbeat::send_step;
use rdembedded::heartbeat::socket_addr_string;
use rdembedded::heartbeat::BindStep;
use rdembedded::heartbeat::HeartbeatError;
use rdembedded::heartbeat::LinkState;
use rdembedded::heartbeat::SendLog;
use rdembedded::models::Interface;
use rdembedded::models::Peer;
use rdembedded::models::WireGuard;

fn wireguard_with_peers(peers: Vec<Peer>) -> WireGuard {
    let mut wg = WireGuard::new(1, String::from("w"), String::from("d"));
    wg.interface = Interface {
        private_key: String::from("k="),
        address: String::from("10.0.0.2/24"),
        listen_port: None,
    };
    wg.peers = peers;
    wg
}

#[test]
fn bind_retries_twice_then_proceeds() {
    // Two failed binds mean exactly two fixed-interval retries; the third
    // attempt succeeds, is logged once, and the send loop begins.
    let outcomes = [false, false, true];
    let mut retries: u32 = 0;
    let mut proceeded = false;
    for bound in outcomes {
        match bind_step(bound) {
            BindStep::RetryAfterTick => retries += 1,
            BindStep::Proceed => {
                proceeded = true;
                break;
            }
        }
    }
    assert_eq!(retries, 2);
    assert!(proceeded);
}

#[test]
fn bind_phase_trace_fails_twice_then_succeeds() {
    // The whole phase as one item: two failures are exactly two retry
    // ticks, and the one success is the final event before sending.
    let trace = bind_phase(&vec![false, false, true]);
    assert_eq!(
        trace,
        vec![
            BindStep::RetryAfterTick,
            BindStep::RetryAfterTick,
            BindStep::Proceed
        ]
    );

    // Without a success the phase only ever retries.
    let trace = bind_phase(&vec![false, false]);
    assert_eq!(trace, vec![BindStep::RetryAfterTick, BindStep::RetryAfterTick]);

    // Outcomes after the first success never become attempts.
    let trace = bind_phase(&vec![true, false]);
    assert_eq!(trace, vec![BindStep::Proceed]);
}

#[test]
fn send_phase_logs_follow_the_edges() {
    let logs = send_phase(&vec![true, true, false, false, true]);
    assert_eq!(
        logs,
        vec![
            SendLog::Recovered,
            SendLog::Silent,
            SendLog::Failure,
            SendLog::Silent,
            SendLog::Recovered
        ]
    );

    let logs = send_phase(&vec![false, true]);
    assert_eq!(logs, vec![SendLog::Failure, SendLog::Recovered]);
}

#[test]
fn send_logging_is_edge_triggered() {
    // First success logs once; steady success is silent; a failure logs
    // once; steady failure is silent; recovery logs again.
    let (s1, l1) = send_step(LinkState::Unknown, true);
    assert_eq!(s1, LinkState::Up);
    assert_eq!(l1, SendLog::Recovered);
    let (s2, l2) = send_step(s1, true);
    assert_eq!(s2, LinkState::Up);
    assert_eq!(l2, SendLog::Silent);
    let (s3, l3) = send_step(s2, false);
    assert_eq!(s3, LinkState::Down);
    assert_eq!(l3, SendLog::Failure);
    let (s4, l4) = send_step(s3, false);
    assert_eq!(s4, LinkState::Down);
    assert_eq!(l4, SendLog::Silent);
    let (s5, l5) = send_step(s4, true);
    assert_eq!(s5, LinkState::Up);
    assert_eq!(l5, SendLog::Recovered);
}

#[test]
fn hub_endpoint_errors() {
    let none = wireguard_with_peers(Vec::new());
    assert_eq!(none.hub_endpoint().unwrap_err(), HeartbeatError::NoPeer);

    let unaddressed = wireguard_with_peers(vec![Peer {
        public_key: String::from("p="),
        allowed_ips: vec![String::from("10.0.0.1/32")],
        endpoint: None,
    }]);
    assert_eq!(
        unaddressed.hub_endpoint().unwrap_err(),
        HeartbeatError::NoEndpoint
    );

    let addressed = wireguard_with_peers(vec![Peer {
        public_key: String::from("p="),
        allowed_ips: vec![String::from("10.0.0.1/32")],
        endpoint: Some(String::from("hub.example.com:51820")),
    }]);
    assert_eq!(addressed.hub_endpoint().unwrap(), "hub.example.com:51820");
}

#[test]
fn addressing_is_extracted_from_the_resolved_record() {
    let wg = wireguard_with_peers(Vec::new());
    assert_eq!(wg.device_ip(), "10.0.0.2");

    assert_eq!(
        endpoint_host_port("hub.example.com:51820"),
        Some((String::from("hub.example.com"), 51820))
    );
    assert_eq!(endpoint_host_port("hub.example.com"), None);
    assert_eq!(endpoint_host_port("hub.example.com:port"), None);
    assert_eq!(endpoint_host_port("hub.example.com:99999"), None);
}

#[test]
fn socket_addr_renders_exactly() {
    assert_eq!(socket_addr_string("10.0.0.2", 42069), "10.0.0.2:42069");
    assert_eq!(socket_addr_string("0.0.0.0", 0), "0.0.0.0:0");
}

#[test]
fn payload_is_the_raw_uuid_bytes() {
    let bytes = heartbeat_payload("550e8400-e29b-41d4-a716-446655440000").unwrap();
    assert_eq!(
        bytes,
        vec![
            0x55, 0x0e, 0x84, 0x00, 0xe2, 0x9b, 0x41, 0xd4, 0xa7, 0x16, 0x44, 0x66, 0x55, 0x44,
            0x00, 0x00
        ]
    );
    assert!(heartbeat_payload("not-a-uuid").is_none());
}

#[test]
fn payload_text_is_the_utf8_bytes() {
    assert_eq!(
        heartbeat_payload_text("550e8400"),
        b"550e8400".to_vec()
    );
}
