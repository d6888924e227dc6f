use vtrunkd::address::IpAddress;
use vtrunkd::address::SocketAddress;
use vtrunkd::config::BondingMode;
use vtrunkd::config::Config;
use vtrunkd::control::build_control_packet;
use vtrunkd::control::classify;
use vtrunkd::control::wg_packet_type;
use vtrunkd::control::PacketClass;
use vtrunkd::control::BOND_PING;
use vtrunkd::control::BOND_PONG;
use vtrunkd::error::VtrunkdError;
use vtrunkd::keys::encode_key;
use vtrunkd::keys::keypair_from;
use vtrunkd::keys::decode_key;
use vtrunkd::manager::LinkManager;
use vtrunkd::noise::counter_in_range;
use vtrunkd::noise::session_error;
use vtrunkd::noise::NoiseDriver;
use vtrunkd::noise::NoiseOutput;
use vtrunkd::supervisor::after_decapsulate;
use vtrunkd::supervisor::establish;
use vtrunkd::supervisor::handle_incoming;
use vtrunkd::supervisor::on_net_packet;
use vtrunkd::supervisor::on_timer;
use vtrunkd::supervisor::on_tun_packet;
use vtrunkd::supervisor::outbound;
use vtrunkd::supervisor::read_keys;
use vtrunkd::supervisor::send_handshake;
use vtrunkd::supervisor::shutdown_outcome;
use vtrunkd::supervisor::Exit;
use vtrunkd::supervisor::Inbound;
use vtrunkd::supervisor::NetPacket;
use vtrunkd::supervisor::Stage;

fn peer_addr() -> SocketAddress {
    SocketAddress::new(IpAddress::V4(0x7F00_0001), 12345)
}

fn public_of(private: &[u8; 32]) -> [u8; 32] {
    decode_key("public", &keypair_from(private).1).unwrap()
}

fn pair_of_drivers() -> (NoiseDriver, NoiseDriver) {
    let a = [0x11u8; 32];
    let b = [0x22u8; 32];
    let left = NoiseDriver::new(a, public_of(&b), None, None, 1500).unwrap();
    let right = NoiseDriver::new(b, public_of(&a), None, None, 1500).unwrap();
    (left, right)
}

fn network_bytes(output: NoiseOutput) -> Vec<u8> {
    match output {
        NoiseOutput::WriteToNetwork(bytes) => bytes,
        other => panic!("expected bytes for the peer, got {:?}", other),
    }
}

fn ipv4_packet(payload: &[u8]) -> Vec<u8> {
    let total = 20 + payload.len();
    let mut packet = vec![0u8; 20];
    packet[0] = 0x45;
    packet[2] = (total >> 8) as u8;
    packet[3] = total as u8;
    packet[8] = 64;
    packet[9] = 17;
    packet[12..16].copy_from_slice(&[10, 0, 0, 1]);
    packet[16..20].copy_from_slice(&[10, 0, 0, 2]);
    packet.extend_from_slice(payload);
    packet
}

fn shake_hands(left: &mut NoiseDriver, right: &mut NoiseDriver) {
    let init = network_bytes(left.format_handshake_initiation(true));
    let response = network_bytes(right.decapsulate(Some(IpAddress::V4(0x0A00_0001)), &init));
    let keepalive = network_bytes(left.decapsulate(None, &response));
    assert!(matches!(right.decapsulate(None, &keepalive), NoiseOutput::Done));
}

fn config_with_keys() -> Config {
    let mut config = Config::default();
    config.wireguard.private_key = encode_key(&[0x11u8; 32]);
    config.wireguard.peer_public_key = encode_key(&public_of(&[0x22u8; 32]));
    config
}

fn invalid_config_text<T>(result: Result<T, VtrunkdError>) -> String {
    match result {
        Err(VtrunkdError::InvalidConfig(text)) => text,
        Err(other) => panic!("expected an invalid configuration, got {:?}", other),
        Ok(_) => panic!("expected an invalid configuration, got a result"),
    }
}

#[test]
fn handle_incoming_drops_invalid_packet() {
    let mut tunnel = NoiseDriver::new([1u8; 32], [2u8; 32], None, None, 256 - 32).unwrap();

    let packet = NetPacket { link_index: 0, src: peer_addr(), data: vec![0u8; 1] };

    let mut links = LinkManager::new(Vec::new(), BondingMode::Aggregate, 1_000, None);

    let probe = tunnel.decapsulate(Some(packet.src.ip()), &packet.data);
    assert!(matches!(probe, NoiseOutput::Failed(_)));

    let mut tunnel = NoiseDriver::new([1u8; 32], [2u8; 32], None, None, 256 - 32).unwrap();
    let result = handle_incoming(&mut tunnel, &mut links, &packet, 0);
    assert!(!result.control);
    assert!(result.reply.is_none());
    assert!(result.to_network.is_empty());
    assert!(result.to_tunnel.is_none());
}

#[test]
fn run_until_shutdown_errors_on_run_failure() {
    let result = shutdown_outcome(Exit::Returned(Err(VtrunkdError::Network("boom".to_string()))));
    assert!(matches!(result, Err(VtrunkdError::Network(_))));
    match result {
        Err(VtrunkdError::Network(text)) => assert_eq!(text, "boom"),
        other => panic!("unexpected {:?}", other),
    }
}

#[test]
fn run_until_shutdown_errors_on_unexpected_exit() {
    let result = shutdown_outcome(Exit::Returned(Ok(())));
    assert!(matches!(result, Err(VtrunkdError::Network(_))));
    match result {
        Err(VtrunkdError::Network(text)) => assert_eq!(text, "WireGuard task exited unexpectedly"),
        other => panic!("unexpected {:?}", other),
    }
}

#[test]
fn run_until_shutdown_returns_ok_on_shutdown() {
    let result = shutdown_outcome(Exit::Signal(Ok(())));
    assert!(result.is_ok());
}

#[test]
fn shutdown_outcome_reports_join_and_signal_failures() {
    match shutdown_outcome(Exit::JoinFailed("task panicked".to_string())) {
        Err(VtrunkdError::Network(text)) => {
            assert_eq!(text, "WireGuard task join error: task panicked")
        }
        other => panic!("unexpected {:?}", other),
    }
    let failure = std::io::Error::new(std::io::ErrorKind::Other, "no signal");
    match shutdown_outcome(Exit::Signal(Err(failure))) {
        Err(VtrunkdError::Io(err)) => assert_eq!(err.to_string(), "no signal"),
        other => panic!("unexpected {:?}", other),
    }
    match shutdown_outcome(Exit::Returned(Err(VtrunkdError::NotFound("x".to_string())))) {
        Err(VtrunkdError::NotFound(text)) => assert_eq!(text, "x"),
        other => panic!("unexpected {:?}", other),
    }
}

#[test]
fn error_messages_carry_their_heading() {
    assert_eq!(VtrunkdError::Config("a".to_string()).message(), "Configuration error: a");
    assert_eq!(VtrunkdError::Network("b".to_string()).message(), "Network error: b");
    assert_eq!(VtrunkdError::InvalidConfig("c".to_string()).message(), "Invalid configuration: c");
    assert_eq!(VtrunkdError::SystemCall("d".to_string()).message(), "System call failed: d");
    assert_eq!(VtrunkdError::NotFound("e".to_string()).message(), "Resource not found: e");
    let io = std::io::Error::new(std::io::ErrorKind::Other, "disk on fire");
    assert_eq!(VtrunkdError::Io(io).message(), "IO error: disk on fire");
}

#[test]
fn outbound_sends_bytes_and_passes_over_the_rest() {
    assert_eq!(
        outbound(Stage::Encapsulate, NoiseOutput::WriteToNetwork(vec![1, 2, 3])).unwrap(),
        Some(vec![1, 2, 3])
    );
    assert_eq!(outbound(Stage::Timer, NoiseOutput::Done).unwrap(), None);
    assert_eq!(outbound(Stage::Timer, NoiseOutput::WriteToTunnelV4(vec![1], 7)).unwrap(), None);
    assert_eq!(outbound(Stage::Handshake, NoiseOutput::WriteToTunnelV6(vec![1], 7)).unwrap(), None);
}

#[test]
fn outbound_reports_session_errors_by_stage() {
    let mut tunnel = NoiseDriver::new([1u8; 32], [2u8; 32], None, None, 1500).unwrap();
    for (stage, heading) in [
        (Stage::Encapsulate, "WireGuard encapsulate error: "),
        (Stage::Timer, "WireGuard timer error: "),
        (Stage::Handshake, "WireGuard handshake error: "),
    ] {
        let failed = tunnel.decapsulate(None, &[0u8; 1]);
        assert!(matches!(failed, NoiseOutput::Failed(_)));
        match outbound(stage, failed) {
            Err(VtrunkdError::Network(text)) => {
                assert!(text.starts_with(heading), "{}", text);
                assert_eq!(text, format!("{}InvalidPacket", heading));
            }
            other => panic!("unexpected {:?}", other),
        }
    }
    if let NoiseOutput::Failed(err) = tunnel.decapsulate(None, &[0u8; 1]) {
        match session_error("while testing: ", &err) {
            VtrunkdError::Network(text) => assert_eq!(text, "while testing: InvalidPacket"),
            other => panic!("unexpected {:?}", other),
        }
    }
}

#[test]
fn after_decapsulate_sorts_the_outputs() {
    assert!(matches!(
        after_decapsulate(NoiseOutput::WriteToNetwork(vec![1, 2])),
        Inbound::Forward(bytes) if bytes == vec![1, 2]
    ));
    assert!(matches!(
        after_decapsulate(NoiseOutput::WriteToTunnelV4(vec![3], 1)),
        Inbound::Deliver(bytes) if bytes == vec![3]
    ));
    assert!(matches!(
        after_decapsulate(NoiseOutput::WriteToTunnelV6(vec![4], 1)),
        Inbound::Deliver(bytes) if bytes == vec![4]
    ));
    assert!(matches!(after_decapsulate(NoiseOutput::Done), Inbound::Stop));
    let mut tunnel = NoiseDriver::new([1u8; 32], [2u8; 32], None, None, 1500).unwrap();
    assert!(matches!(after_decapsulate(tunnel.decapsulate(None, &[9u8; 3])), Inbound::Stop));
}

#[test]
fn two_sessions_shake_hands_and_carry_a_packet() {
    let (mut left, mut right) = pair_of_drivers();
    assert_eq!(left.max_packet(), 1500);

    let init = network_bytes(left.format_handshake_initiation(true));
    assert_eq!(init.len(), 148);
    assert_eq!(wg_packet_type(&init), Some(1));
    assert_eq!(classify(&init), PacketClass::Handshake);

    let response = network_bytes(right.decapsulate(Some(IpAddress::V4(0x0A00_0001)), &init));
    assert_eq!(response.len(), 92);
    assert_eq!(wg_packet_type(&response), Some(2));

    let keepalive = network_bytes(left.decapsulate(Some(IpAddress::V6(1)), &response));
    assert_eq!(keepalive.len(), 32);
    assert_eq!(classify(&keepalive), PacketClass::Keepalive);
    assert!(matches!(right.decapsulate(None, &keepalive), NoiseOutput::Done));

    let plain = ipv4_packet(b"hello over the bond");
    let wrapped = network_bytes(left.encapsulate(&plain));
    assert_eq!(wrapped.len(), plain.len() + 32);
    assert_eq!(classify(&wrapped), PacketClass::Data);
    assert_ne!(&wrapped[16..16 + plain.len()], &plain[..]);
    match right.decapsulate(None, &wrapped) {
        NoiseOutput::WriteToTunnelV4(bytes, source) => {
            assert_eq!(bytes, plain);
            assert_eq!(source, 0x0A00_0001);
        }
        other => panic!("expected a packet for the tunnel device, got {:?}", other),
    }
    assert!(matches!(right.decapsulate(None, &wrapped), NoiseOutput::Failed(_)));
}

#[test]
fn packets_before_the_session_wait_and_follow_the_handshake() {
    let (mut left, mut right) = pair_of_drivers();
    let mut links = LinkManager::new(Vec::new(), BondingMode::Aggregate, 1_000, None);
    let first = ipv4_packet(b"first");
    let second = ipv4_packet(b"second, somewhat longer");

    let init = on_tun_packet(&mut left, &first).unwrap().expect("a handshake initiation");
    assert_eq!(wg_packet_type(&init), Some(1));
    assert_eq!(on_tun_packet(&mut left, &second).unwrap(), None);

    let at_right = handle_incoming(
        &mut right,
        &mut links,
        &NetPacket { link_index: 0, src: peer_addr(), data: init },
        0,
    );
    assert!(!at_right.control);
    assert_eq!(at_right.to_network.len(), 1);
    assert!(at_right.to_tunnel.is_none());

    let at_left = handle_incoming(
        &mut left,
        &mut links,
        &NetPacket { link_index: 0, src: peer_addr(), data: at_right.to_network[0].clone() },
        0,
    );
    assert_eq!(at_left.to_network.len(), 3);
    assert_eq!(at_left.to_network[0].len(), 32);
    assert_eq!(at_left.to_network[1].len(), first.len() + 32);
    assert_eq!(at_left.to_network[2].len(), second.len() + 32);

    let mut delivered = Vec::new();
    for datagram in at_left.to_network {
        let got = handle_incoming(
            &mut right,
            &mut links,
            &NetPacket { link_index: 0, src: peer_addr(), data: datagram },
            0,
        );
        assert!(got.to_network.is_empty());
        if let Some(packet) = got.to_tunnel {
            delivered.push(packet);
        }
    }
    assert_eq!(delivered, vec![first, second]);
}

#[test]
fn empty_reads_are_passed_over() {
    let (mut left, _) = pair_of_drivers();
    assert_eq!(on_tun_packet(&mut left, &[]).unwrap(), None);
    let init = on_tun_packet(&mut left, &ipv4_packet(b"x")).unwrap();
    assert!(init.is_some());
}

#[test]
fn timer_asks_for_nothing_on_a_fresh_or_steady_session() {
    let (mut left, mut right) = pair_of_drivers();
    for _ in 0..5 {
        assert_eq!(on_timer(&mut left).unwrap(), None);
    }
    shake_hands(&mut left, &mut right);
    for _ in 0..20 {
        assert_eq!(on_timer(&mut left).unwrap(), None);
        assert_eq!(on_timer(&mut right).unwrap(), None);
    }
    let wrapped = on_tun_packet(&mut left, &ipv4_packet(b"still works")).unwrap().unwrap();
    assert!(matches!(right.decapsulate(None, &wrapped), NoiseOutput::WriteToTunnelV4(_, _)));
}

#[test]
fn handshake_is_written_only_with_an_endpoint() {
    let (mut left, _) = pair_of_drivers();
    let mut config = config_with_keys();
    config.wireguard.links[0].endpoint = None;
    let passive = LinkManager::from_config(&config.wireguard, &vec![None]);
    assert_eq!(send_handshake(&mut left, &passive).unwrap(), None);

    let active = LinkManager::from_config(&config.wireguard, &vec![Some(peer_addr())]);
    let init = send_handshake(&mut left, &active).unwrap().expect("a handshake initiation");
    assert_eq!(init.len(), 148);
    assert_eq!(classify(&init), PacketClass::Handshake);
    let again = send_handshake(&mut left, &active).unwrap().expect("a forced initiation");
    assert_eq!(again.len(), 148);
}

#[test]
fn control_frames_never_reach_the_session() {
    let (mut left, _) = pair_of_drivers();
    let config = config_with_keys();
    let mut links = LinkManager::from_config(&config.wireguard, &vec![None]);

    let ping = NetPacket {
        link_index: 0,
        src: peer_addr(),
        data: build_control_packet(BOND_PING, 77).to_vec(),
    };
    let got = on_net_packet(&mut left, &mut links, &ping, 1_000);
    assert!(got.control);
    assert!(got.to_network.is_empty());
    assert!(got.to_tunnel.is_none());
    let reply = got.reply.expect("a pong");
    assert_eq!(reply.link, 0);
    assert_eq!(reply.remote, peer_addr());
    assert_eq!(reply.frame, build_control_packet(BOND_PONG, 77));
    assert_eq!(links.link(0).unwrap().remote, Some(peer_addr()));
    assert_eq!(links.link(0).unwrap().last_rx, Some(1_000));

    let pong = NetPacket {
        link_index: 0,
        src: peer_addr(),
        data: build_control_packet(BOND_PONG, 900).to_vec(),
    };
    let got = on_net_packet(&mut left, &mut links, &pong, 1_025);
    assert!(got.control);
    assert!(got.reply.is_none());
    assert_eq!(links.link(0).unwrap().last_rtt_ms, Some(125));

    let without_remote = handle_incoming(
        &mut left,
        &mut LinkManager::from_config(&config.wireguard, &vec![None]),
        &ping,
        0,
    );
    assert!(without_remote.control);
    assert!(without_remote.reply.is_none());
}

#[test]
fn oversized_datagrams_are_passed_over() {
    let mut tunnel = NoiseDriver::new([1u8; 32], [2u8; 32], None, None, 100).unwrap();
    let mut links = LinkManager::new(Vec::new(), BondingMode::Aggregate, 1_000, None);
    let mut data = vec![0u8; 133];
    data[0] = 4;
    let got = handle_incoming(
        &mut tunnel,
        &mut links,
        &NetPacket { link_index: 0, src: peer_addr(), data },
        0,
    );
    assert!(!got.control);
    assert!(got.to_network.is_empty() && got.to_tunnel.is_none() && got.reply.is_none());
}

#[test]
fn establish_sets_up_session_and_links() {
    let config = config_with_keys();
    let (driver, links) = establish(&config, &vec![Some(peer_addr())]).unwrap();
    assert_eq!(driver.max_packet(), 65536);
    assert_eq!(links.len(), 1);
    assert_eq!(links.mode(), BondingMode::Aggregate);
    assert!(links.probing());
    assert!(links.has_endpoints());
    assert_eq!(links.link(0).unwrap().name, "link-0");
}

#[test]
fn establish_reports_the_first_bad_key() {
    let mut config = config_with_keys();
    config.wireguard.private_key = "REPLACE_ME".to_string();
    config.wireguard.peer_public_key = "AAAA".to_string();
    assert_eq!(
        invalid_config_text(establish(&config, &Vec::new())),
        "Invalid base64 for private_key"
    );

    let mut config = config_with_keys();
    config.wireguard.peer_public_key = "AAAA".to_string();
    config.wireguard.preshared_key = Some("AAAA".to_string());
    assert_eq!(
        invalid_config_text(establish(&config, &Vec::new())),
        "Invalid peer_public_key length (expected 32 bytes, got 3)"
    );

    let mut config = config_with_keys();
    config.wireguard.preshared_key = Some("????".to_string());
    assert_eq!(
        invalid_config_text(establish(&config, &Vec::new())),
        "Invalid base64 for preshared_key"
    );

    config.wireguard.preshared_key = Some(encode_key(&[3u8; 32]));
    assert!(establish(&config, &Vec::new()).is_ok());
}

#[test]
fn establish_needs_a_link() {
    let mut config = config_with_keys();
    config.wireguard.links.clear();
    assert_eq!(
        invalid_config_text(establish(&config, &Vec::new())),
        "WireGuard links must include at least one entry"
    );
}

#[test]
fn driver_refuses_a_limit_it_cannot_size_a_buffer_for() {
    let made = NoiseDriver::new([1u8; 32], [2u8; 32], None, None, usize::MAX - 31);
    assert_eq!(invalid_config_text(made.map(|_| ())), "Network buffer_size is too large");
    let small = NoiseDriver::new([1u8; 32], [2u8; 32], None, Some(25), 0).unwrap();
    assert_eq!(small.max_packet(), 0);
}

fn wait_ms(ms: u64) {
    let start = std::time::Instant::now();
    while (start.elapsed().as_millis() as u64) < ms {
        std::hint::spin_loop();
    }
}

#[test]
fn timer_writes_a_keepalive_when_one_is_due() {
    let a = [0x11u8; 32];
    let b = [0x22u8; 32];
    let mut left = NoiseDriver::new(a, public_of(&b), None, Some(1), 1500).unwrap();
    let mut right = NoiseDriver::new(b, public_of(&a), None, None, 1500).unwrap();
    shake_hands(&mut left, &mut right);
    wait_ms(1200);
    let mut written = None;
    for _ in 0..3 {
        if let Some(bytes) = on_timer(&mut left).unwrap() {
            written = Some(bytes);
            break;
        }
        wait_ms(300);
    }
    let keepalive = written.expect("a keepalive");
    assert_eq!(keepalive.len(), 32);
    assert_eq!(wg_packet_type(&keepalive), Some(4));
    assert_eq!(classify(&keepalive), PacketClass::Keepalive);
    assert!(matches!(right.decapsulate(None, &keepalive), NoiseOutput::Done));
}

#[test]
fn an_unforced_initiation_is_not_repeated() {
    let (mut left, _) = pair_of_drivers();
    let first = network_bytes(left.format_handshake_initiation(false));
    assert_eq!(first.len(), 148);
    assert_eq!(wg_packet_type(&first), Some(1));
    assert!(matches!(left.format_handshake_initiation(false), NoiseOutput::Done));
    let forced = network_bytes(left.format_handshake_initiation(true));
    assert_eq!(forced.len(), 148);
    assert_eq!(wg_packet_type(&forced), Some(1));
    assert_ne!(forced, first);
}

#[test]
fn wrapping_gives_one_of_two_shapes() {
    let (mut left, mut right) = pair_of_drivers();
    let plain = ipv4_packet(b"shape");
    let before = on_tun_packet(&mut left, &plain).unwrap().expect("an initiation");
    assert_eq!((before.len(), wg_packet_type(&before)), (148, Some(1)));
    assert_eq!(classify(&before), PacketClass::Handshake);

    let (mut left, _) = pair_of_drivers();
    shake_hands(&mut left, &mut right);
    for size in [1usize, 20, 100, 1400] {
        let mut plain = ipv4_packet(&vec![7u8; size]);
        plain.truncate(size.max(1));
        let wrapped = on_tun_packet(&mut left, &plain).unwrap().expect("a transport message");
        assert_eq!(wrapped.len(), plain.len() + 32);
        assert_eq!(wg_packet_type(&wrapped), Some(4));
        assert_eq!(classify(&wrapped), PacketClass::Data);
    }
}

#[test]
fn unwrapped_packets_are_cut_to_their_own_length() {
    let (mut left, mut right) = pair_of_drivers();
    shake_hands(&mut left, &mut right);
    shake_hands(&mut right, &mut left);
    let mut padded = ipv4_packet(b"12345");
    padded.extend_from_slice(&[0u8; 11]);
    let wrapped = network_bytes(left.encapsulate(&padded));
    assert_eq!(wrapped.len(), padded.len() + 32);
    match right.decapsulate(None, &wrapped) {
        NoiseOutput::WriteToTunnelV4(bytes, _) => {
            assert_eq!(bytes, ipv4_packet(b"12345"));
            assert!(bytes.len() + 32 <= wrapped.len());
        }
        other => panic!("expected a packet for the tunnel device, got {:?}", other),
    }
    let response = network_bytes(right.decapsulate(
        None,
        &network_bytes(left.format_handshake_initiation(true)),
    ));
    assert_eq!((response.len(), wg_packet_type(&response)), (92, Some(2)));
}

#[test]
fn read_keys_reads_all_three_keys() {
    let mut config = config_with_keys();
    let keys = read_keys(&config).unwrap();
    assert_eq!(keys.private, [0x11u8; 32]);
    assert_eq!(keys.peer_public, public_of(&[0x22u8; 32]));
    assert_eq!(keys.preshared, None);

    config.wireguard.preshared_key = Some(format!(" {}\n", encode_key(&[3u8; 32])));
    assert_eq!(read_keys(&config).unwrap().preshared, Some([3u8; 32]));

    config.wireguard.peer_public_key = "AAAA".to_string();
    config.wireguard.preshared_key = Some("?".to_string());
    assert_eq!(
        invalid_config_text(read_keys(&config)),
        "Invalid peer_public_key length (expected 32 bytes, got 3)"
    );
}

#[test]
fn establish_fails_on_its_three_faults_in_order_and_on_nothing_else() {
    let mut config = config_with_keys();
    config.network.buffer_size = usize::MAX - 31;
    config.wireguard.links.clear();
    assert_eq!(
        invalid_config_text(establish(&config, &Vec::new())),
        "Network buffer_size is too large"
    );

    config.wireguard.private_key = "AAAA".to_string();
    assert_eq!(
        invalid_config_text(establish(&config, &Vec::new())),
        "Invalid private_key length (expected 32 bytes, got 3)"
    );

    let mut config = config_with_keys();
    config.network.buffer_size = 0;
    config.network.mtu = 0;
    config.wireguard.private_key = encode_key(&[0u8; 32]);
    config.wireguard.peer_public_key = encode_key(&[0u8; 32]);
    config.wireguard.links[0].endpoint = None;
    let (driver, links) = match establish(&config, &Vec::new()) {
        Ok(pair) => pair,
        Err(err) => panic!("expected a session, got {:?}", err),
    };
    assert_eq!(driver.max_packet(), 0);
    assert_eq!(links.len(), 1);
    assert_eq!(links.link(0).unwrap().remote, None);
}

#[test]
fn a_control_frame_leaves_the_handshake_under_way() {
    let (mut left, mut right) = pair_of_drivers();
    let config = config_with_keys();
    let mut links = LinkManager::from_config(&config.wireguard, &vec![Some(peer_addr())]);
    let init = network_bytes(left.format_handshake_initiation(true));
    let response = network_bytes(right.decapsulate(None, &init));

    for kind in [BOND_PING, BOND_PONG, 7] {
        let frame = NetPacket {
            link_index: 0,
            src: peer_addr(),
            data: build_control_packet(kind, 1).to_vec(),
        };
        let got = handle_incoming(&mut left, &mut links, &frame, 10);
        assert!(got.control && got.to_network.is_empty() && got.to_tunnel.is_none());
    }

    let got = handle_incoming(
        &mut left,
        &mut links,
        &NetPacket { link_index: 0, src: peer_addr(), data: response },
        10,
    );
    assert!(!got.control);
    assert_eq!(got.to_network.len(), 1);
    assert_eq!(got.to_network[0].len(), 32);
}

#[test]
fn what_an_arrival_leads_to_is_within_bounds() {
    let a = [0x11u8; 32];
    let b = [0x22u8; 32];
    let mut left = NoiseDriver::new(a, public_of(&b), None, None, 200).unwrap();
    let mut right = NoiseDriver::new(b, public_of(&a), None, None, 200).unwrap();
    let mut links = LinkManager::new(Vec::new(), BondingMode::Aggregate, 1_000, None);
    let waiting = vec![ipv4_packet(&[1u8; 180]), ipv4_packet(&[2u8; 5]), ipv4_packet(&[])];
    let mut first = None;
    for plain in &waiting {
        if let Some(bytes) = on_tun_packet(&mut left, plain).unwrap() {
            first = Some(bytes);
        }
    }
    let at_right = handle_incoming(
        &mut right,
        &mut links,
        &NetPacket { link_index: 0, src: peer_addr(), data: first.expect("an initiation") },
        0,
    );
    let at_left = handle_incoming(
        &mut left,
        &mut links,
        &NetPacket { link_index: 0, src: peer_addr(), data: at_right.to_network[0].clone() },
        0,
    );
    assert_eq!(at_left.to_network.len(), 4);
    for datagram in &at_left.to_network {
        assert_eq!(wg_packet_type(datagram), Some(4));
        assert!(datagram.len() >= 32 && datagram.len() <= 232);
    }
    let mut delivered = Vec::new();
    for datagram in at_left.to_network {
        let size = datagram.len();
        let got = handle_incoming(
            &mut right,
            &mut links,
            &NetPacket { link_index: 0, src: peer_addr(), data: datagram },
            0,
        );
        if let Some(packet) = got.to_tunnel {
            assert!(packet.len() <= 200 && packet.len() + 32 <= size);
            delivered.push(packet);
        }
    }
    assert_eq!(delivered, waiting);
}

fn with_counter(mut datagram: Vec<u8>, counter: u64) -> Vec<u8> {
    datagram[8..16].copy_from_slice(&counter.to_le_bytes());
    datagram
}

#[test]
fn counter_in_range_reads_the_counter_of_transport_messages() {
    let mut transport = vec![0u8; 32];
    transport[0] = 4;
    assert!(counter_in_range(&transport));
    assert!(counter_in_range(&with_counter(transport.clone(), 0x0102_0304_0506_0708)));
    assert!(counter_in_range(&with_counter(transport.clone(), u64::MAX - 1024)));
    assert!(!counter_in_range(&with_counter(transport.clone(), u64::MAX - 1023)));
    assert!(!counter_in_range(&with_counter(transport.clone(), u64::MAX)));
    let mut longer = with_counter(transport.clone(), u64::MAX);
    longer.extend_from_slice(&[0u8; 100]);
    assert!(!counter_in_range(&longer));

    let mut short = with_counter(transport.clone(), u64::MAX);
    short.truncate(31);
    assert!(counter_in_range(&short));
    let mut other = with_counter(vec![0u8; 148], u64::MAX);
    for kind in [0u8, 1, 2, 3, 5] {
        other[0] = kind;
        assert!(counter_in_range(&other));
    }
    other[0] = 4;
    other[1] = 1;
    assert!(counter_in_range(&other));
    assert!(counter_in_range(&[]));
}

#[test]
fn a_counter_beyond_the_window_is_passed_over() {
    let (mut left, mut right) = pair_of_drivers();
    shake_hands(&mut left, &mut right);
    let mut links = LinkManager::new(Vec::new(), BondingMode::Aggregate, 1_000, None);
    let plain = ipv4_packet(b"counted");
    let wrapped = network_bytes(left.encapsulate(&plain));

    for counter in [u64::MAX, u64::MAX - 1023] {
        let forged = with_counter(wrapped.clone(), counter);
        let got = handle_incoming(
            &mut right,
            &mut links,
            &NetPacket { link_index: 0, src: peer_addr(), data: forged },
            0,
        );
        assert!(!got.control);
        assert!(got.to_network.is_empty() && got.to_tunnel.is_none() && got.reply.is_none());
    }

    let got = handle_incoming(
        &mut right,
        &mut links,
        &NetPacket { link_index: 0, src: peer_addr(), data: wrapped },
        0,
    );
    assert_eq!(got.to_tunnel, Some(plain));
}
