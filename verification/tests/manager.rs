use vtrunkd::address::IpAddress;
use vtrunkd::address::SocketAddress;
use vtrunkd::config::BondingMode;
use vtrunkd::config::Config;
use vtrunkd::config::WireGuardLinkConfig;
use vtrunkd::control::build_control_packet;
use vtrunkd::control::BOND_PING;
use vtrunkd::control::BOND_PONG;
use vtrunkd::link::Link;
use vtrunkd::manager::ControlOutcome;
use vtrunkd::manager::LinkManager;
use vtrunkd::bond::Route;
use vtrunkd::bond::SendStep;

fn addr(last: u32, port: u16) -> SocketAddress {
    SocketAddress::new(IpAddress::V4(0x0A00_0000 + last), port)
}

fn manager(weights: &[u32], mode: BondingMode, timeout: Option<u64>) -> LinkManager {
    let links = weights
        .iter()
        .enumerate()
        .map(|(i, w)| Link::new(format!("link-{}", i), Some(addr(i as u32 + 1, 51820)), *w))
        .collect();
    LinkManager::new(links, mode, 5_000, timeout)
}

fn data() -> Vec<u8> {
    let mut packet = vec![0u8; 64];
    packet[0] = 4;
    packet
}

fn handshake() -> Vec<u8> {
    let mut packet = vec![0u8; 148];
    packet[0] = 0x01;
    packet
}

fn keepalive() -> Vec<u8> {
    let mut packet = vec![0u8; 32];
    packet[0] = 4;
    packet
}

/// Carries a dispatch through: every socket answers as `accepts` says.
fn drive(
    links: &mut LinkManager,
    packet: &[u8],
    now: u64,
    accepts: &dyn Fn(usize) -> bool,
) -> (Vec<(usize, SocketAddress)>, SendStep) {
    let mut sent = Vec::new();
    let (mut dispatch, mut step) = links.send_packet(packet, now);
    loop {
        match step {
            SendStep::Transmit { link, remote } => {
                assert_eq!(links.link(link).unwrap().remote, Some(remote));
                sent.push((link, remote));
                let (d, s) = links.send_outcome(dispatch, accepts(link));
                dispatch = d;
                step = s;
            }
            done => {
                assert_eq!(dispatch.route, Route::Finished);
                return (sent, done);
            }
        }
    }
}

fn targets(sent: &[(usize, SocketAddress)]) -> Vec<usize> {
    sent.iter().map(|(link, _)| *link).collect()
}

#[test]
fn ping_pong_round_trip_measures_the_rtt() {
    let mut links = manager(&[1], BondingMode::Aggregate, Some(3_000));
    let probes = links.send_health_pings(500);
    assert_eq!(probes.len(), 1);
    assert_eq!(probes[0].link, 0);
    assert_eq!(probes[0].remote, addr(1, 51820));
    assert_eq!(probes[0].frame, [b'V', b'T', b'B', b'D', 1, 0, 0, 0, 0, 0, 0, 0x01, 0xF4]);
    links.record_probe(0, true, true, 500);
    assert_eq!(links.link(0).unwrap().last_ping_sent, Some(500));

    let pong = build_control_packet(BOND_PONG, 500);
    let outcome = links.handle_control_packet(0, &pong, 520);
    assert_eq!(outcome, ControlOutcome::Handled { reply: None });
    assert_eq!(links.link(0).unwrap().last_rtt_ms, Some(20));
}

#[test]
fn weighted_round_robin_follows_the_weights() {
    let mut links = manager(&[3, 1, 2], BondingMode::Aggregate, None);
    let mut order = Vec::new();
    for _ in 0..6 {
        let (sent, step) = drive(&mut links, &data(), 100, &|_| true);
        assert_eq!(step, SendStep::Delivered);
        assert_eq!(sent.len(), 1);
        order.push(sent[0].0);
    }
    assert_eq!(order, vec![0, 0, 0, 1, 2, 2]);
    let mut counts = [0usize; 3];
    for link in &order {
        counts[*link] += 1;
    }
    assert_eq!(counts, [3, 1, 2]);

    let (sent, _) = drive(&mut links, &data(), 100, &|_| true);
    assert_eq!(targets(&sent), vec![0]);
}

#[test]
fn every_window_of_a_round_gives_each_link_its_weight() {
    for skip in 0..6 {
        let mut links = manager(&[3, 1, 2], BondingMode::Aggregate, None);
        for _ in 0..skip {
            drive(&mut links, &data(), 100, &|_| true);
        }
        let mut counts = [0usize; 3];
        for _ in 0..6 {
            let (sent, _) = drive(&mut links, &data(), 100, &|_| true);
            counts[sent[0].0] += 1;
        }
        assert_eq!(counts, [3, 1, 2]);
    }
}

#[test]
fn failover_prefers_the_heaviest_link_and_returns_to_it() {
    let mut links = manager(&[5, 1], BondingMode::Failover, None);
    for _ in 0..100 {
        let (sent, step) = drive(&mut links, &data(), 1_000, &|_| true);
        assert_eq!(targets(&sent), vec![0]);
        assert_eq!(step, SendStep::Delivered);
    }

    links.record_send(0, false, 1_000);
    assert_eq!(links.link(0).unwrap().down_since, Some(1_000));
    let (sent, step) = drive(&mut links, &data(), 1_001, &|_| true);
    assert_eq!(targets(&sent), vec![1]);
    assert_eq!(step, SendStep::Delivered);

    links.update_remote(0, addr(1, 51820), 6_500);
    let (sent, _) = drive(&mut links, &data(), 6_501, &|_| true);
    assert_eq!(targets(&sent), vec![0]);
}

#[test]
fn failover_breaks_ties_by_the_lowest_index() {
    let mut links = manager(&[2, 7, 7, 3], BondingMode::Failover, None);
    assert_eq!(links.best_failover_index(0), Some(1));
    links.record_send(1, false, 0);
    assert_eq!(links.best_failover_index(1), Some(2));
    links.record_send(2, false, 0);
    assert_eq!(links.best_failover_index(1), Some(3));
    links.record_send(3, false, 0);
    assert_eq!(links.best_failover_index(1), Some(0));
    links.record_send(0, false, 0);
    assert_eq!(links.best_failover_index(1), None);
    assert_eq!(links.best_failover_index(5_000), Some(1));
}

#[test]
fn failover_falls_back_when_the_best_link_refuses() {
    let mut links = manager(&[1, 9, 1], BondingMode::Failover, None);
    let (sent, step) = drive(&mut links, &data(), 10, &|link| link == 2);
    assert_eq!(targets(&sent), vec![1, 0, 2]);
    assert_eq!(step, SendStep::Delivered);
    assert_eq!(links.link(1).unwrap().down_since, Some(10));
    assert_eq!(links.link(0).unwrap().down_since, Some(10));
    assert_eq!(links.link(2).unwrap().down_since, None);
}

#[test]
fn redundant_mode_copies_to_every_available_link() {
    let mut links = manager(&[1, 1], BondingMode::Redundant, None);
    let (sent, step) = drive(&mut links, &data(), 0, &|_| true);
    assert_eq!(sent, vec![(0, addr(1, 51820)), (1, addr(2, 51820))]);
    assert_eq!(step, SendStep::Delivered);
}

#[test]
fn redundant_mode_passes_over_links_that_back_off() {
    let mut links = manager(&[1, 1, 1], BondingMode::Redundant, None);
    links.record_send(1, false, 100);
    let (sent, step) = drive(&mut links, &data(), 200, &|_| true);
    assert_eq!(targets(&sent), vec![0, 2]);
    assert_eq!(step, SendStep::Delivered);
    let (sent, _) = drive(&mut links, &data(), 5_100, &|_| true);
    assert_eq!(targets(&sent), vec![0, 1, 2]);
}

#[test]
fn redundant_mode_delivers_if_any_socket_accepts() {
    let mut links = manager(&[1, 1, 1], BondingMode::Redundant, None);
    let (sent, step) = drive(&mut links, &data(), 0, &|link| link == 1);
    assert_eq!(targets(&sent), vec![0, 1, 2]);
    assert_eq!(step, SendStep::Delivered);
    let (sent, step) = drive(&mut links, &data(), 1, &|_| false);
    assert_eq!(targets(&sent), vec![1]);
    assert_eq!(step, SendStep::Dropped);
}

#[test]
fn handshake_goes_out_on_all_links_in_every_mode() {
    for mode in [BondingMode::Aggregate, BondingMode::Redundant, BondingMode::Failover] {
        let mut links = manager(&[1, 1, 1], mode, None);
        let (sent, step) = drive(&mut links, &handshake(), 0, &|_| true);
        assert_eq!(targets(&sent), vec![0, 1, 2]);
        assert_eq!(step, SendStep::Delivered);

        let mut response = handshake();
        response[0] = 2;
        let (sent, _) = drive(&mut links, &response, 0, &|_| true);
        assert_eq!(targets(&sent), vec![0, 1, 2]);

        let mut cookie = handshake();
        cookie[0] = 3;
        let (sent, _) = drive(&mut links, &cookie, 0, &|_| true);
        assert_eq!(targets(&sent), vec![0, 1, 2]);

        let (sent, _) = drive(&mut links, &keepalive(), 0, &|_| true);
        assert_eq!(targets(&sent), vec![0, 1, 2]);
    }
}

#[test]
fn handshake_goes_out_on_failed_links_too() {
    let mut links = manager(&[1, 1, 1], BondingMode::Aggregate, None);
    links.record_send(0, false, 0);
    links.record_send(2, false, 0);
    let (sent, step) = drive(&mut links, &handshake(), 1, &|link| link == 2);
    assert_eq!(targets(&sent), vec![0, 1, 2]);
    assert_eq!(step, SendStep::Delivered);
    assert_eq!(links.link(0).unwrap().down_since, Some(1));
    assert_eq!(links.link(1).unwrap().down_since, Some(1));
    assert_eq!(links.link(2).unwrap().down_since, None);
}

#[test]
fn endpoint_floating_redirects_later_sends() {
    let a = addr(1, 51820);
    let b = addr(200, 40000);
    let mut links = manager(&[1], BondingMode::Aggregate, None);
    let (sent, _) = drive(&mut links, &data(), 0, &|_| true);
    assert_eq!(sent, vec![(0, a)]);

    links.update_remote(0, b, 10);
    assert_eq!(links.link(0).unwrap().remote, Some(b));
    assert_eq!(links.link(0).unwrap().last_rx, Some(10));
    let (sent, _) = drive(&mut links, &data(), 11, &|_| true);
    assert_eq!(sent, vec![(0, b)]);
    assert_eq!(links.send_to_link(0), Some(b));
}

#[test]
fn update_remote_sets_remote_and_arrival_and_ends_failure() {
    let mut links = manager(&[1, 1], BondingMode::Aggregate, None);
    links.record_send(1, false, 5);
    links.update_remote(1, addr(9, 9), 77);
    let link = links.link(1).unwrap();
    assert_eq!(link.remote, Some(addr(9, 9)));
    assert_eq!(link.last_rx, Some(77));
    assert_eq!(link.down_since, None);
    assert_eq!(links.link(0).unwrap().last_rx, None);

    links.update_remote(2, addr(9, 9), 78);
    assert_eq!(links.len(), 2);
    assert_eq!(links.link(0).unwrap().last_rx, None);
    assert_eq!(links.link(1).unwrap().last_rx, Some(77));
    assert!(links.link(2).is_none());
}

#[test]
fn link_without_remote_is_never_a_target() {
    for mode in [BondingMode::Aggregate, BondingMode::Redundant, BondingMode::Failover] {
        let links = vec![
            Link::new("a".to_string(), None, 9),
            Link::new("b".to_string(), Some(addr(2, 2)), 1),
            Link::new("c".to_string(), None, 9),
        ];
        let mut links = LinkManager::new(links, mode, 5_000, Some(3_000));
        for packet in [data(), handshake(), keepalive()] {
            for round in 0..4u64 {
                let (sent, step) = drive(&mut links, &packet, round, &|_| true);
                assert!(!sent.is_empty());
                assert!(sent.iter().all(|(link, _)| *link == 1));
                assert_eq!(step, SendStep::Delivered);
            }
            let (sent, step) = drive(&mut links, &packet, 9, &|_| false);
            assert!(sent.iter().all(|(link, _)| *link == 1));
            assert_eq!(step, SendStep::Dropped);
            links.update_remote(1, addr(2, 2), 9);
        }
        assert_eq!(links.send_to_link(0), None);
        assert_eq!(links.send_to_link(2), None);
        assert_eq!(links.send_to_link(3), None);
        assert!(links.send_probe(0, build_control_packet(BOND_PING, 0)).is_none());
    }
}

#[test]
fn all_links_down_drops_the_packet() {
    for mode in [BondingMode::Aggregate, BondingMode::Redundant, BondingMode::Failover] {
        let mut links = manager(&[2, 1], mode, None);
        links.record_send(0, false, 100);
        links.record_send(1, false, 100);
        let (dispatch, step) = links.send_packet(&data(), 200);
        assert_eq!(step, SendStep::Dropped);
        assert_eq!(dispatch.route, Route::Finished);
        assert!(!dispatch.delivered);
        assert_eq!(dispatch.pending, None);
        let (_, step) = links.send_outcome(dispatch, true);
        assert_eq!(step, SendStep::Dropped);
    }
}

#[test]
fn no_links_drops_everything() {
    for mode in [BondingMode::Aggregate, BondingMode::Redundant, BondingMode::Failover] {
        let mut links = LinkManager::new(Vec::new(), mode, 5_000, None);
        assert!(!links.has_endpoints());
        assert_eq!(links.len(), 0);
        assert_eq!(links.send_packet(&data(), 0).1, SendStep::Dropped);
        assert_eq!(links.send_packet(&handshake(), 0).1, SendStep::Dropped);
        assert_eq!(links.next_weighted_index(0), None);
        assert_eq!(links.best_failover_index(0), None);
        assert!(links.send_health_pings(0).is_empty());
    }
}

#[test]
fn round_robin_tries_the_next_link_for_the_same_packet() {
    let mut links = manager(&[2, 1, 1], BondingMode::Aggregate, None);
    let (sent, step) = drive(&mut links, &data(), 50, &|link| link == 2);
    assert_eq!(targets(&sent), vec![0, 1, 2]);
    assert_eq!(step, SendStep::Delivered);
    assert_eq!(links.link(0).unwrap().down_since, Some(50));
    assert_eq!(links.link(1).unwrap().down_since, Some(50));

    let (sent, _) = drive(&mut links, &data(), 51, &|_| true);
    assert_eq!(targets(&sent), vec![2]);

    let (sent, step) = drive(&mut links, &data(), 52, &|_| false);
    assert_eq!(targets(&sent), vec![2]);
    assert_eq!(step, SendStep::Dropped);
}

#[test]
fn round_robin_skips_links_of_weight_zero() {
    let mut links = manager(&[0, 2, 0, 1], BondingMode::Aggregate, None);
    let mut order = Vec::new();
    for _ in 0..6 {
        let (sent, _) = drive(&mut links, &data(), 0, &|_| true);
        order.push(sent[0].0);
    }
    assert_eq!(order, vec![1, 1, 3, 1, 1, 3]);
}

#[test]
fn round_robin_gives_a_new_link_full_credit_after_a_skip() {
    let mut links = manager(&[3, 2], BondingMode::Aggregate, None);
    assert_eq!(links.next_weighted_index(0), Some(0));
    links.record_send(0, false, 0);
    assert_eq!(links.next_weighted_index(1), Some(1));
    assert_eq!(links.next_weighted_index(1), Some(1));
    assert_eq!(links.next_weighted_index(1), Some(1));
    links.update_remote(0, addr(1, 51820), 2);
    assert_eq!(links.next_weighted_index(3), Some(1));
    assert_eq!(links.next_weighted_index(3), Some(0));
    assert_eq!(links.next_weighted_index(3), Some(0));
    assert_eq!(links.next_weighted_index(3), Some(0));
    assert_eq!(links.next_weighted_index(3), Some(1));
}

#[test]
fn unknown_packets_go_by_the_bonding_mode() {
    let mut links = manager(&[1, 1], BondingMode::Redundant, None);
    let (sent, _) = drive(&mut links, &[9, 9, 9], 0, &|_| true);
    assert_eq!(targets(&sent), vec![0, 1]);
    let mut links = manager(&[1, 1], BondingMode::Failover, None);
    let (sent, _) = drive(&mut links, &[], 0, &|_| true);
    assert_eq!(targets(&sent), vec![0]);
    let mut links = manager(&[1, 1], BondingMode::Aggregate, None);
    let mut short = keepalive();
    short.truncate(31);
    let (sent, _) = drive(&mut links, &short, 0, &|_| true);
    assert_eq!(targets(&sent), vec![0]);
    let (sent, _) = drive(&mut links, &short, 0, &|_| true);
    assert_eq!(targets(&sent), vec![1]);
}

#[test]
fn health_pings_go_to_every_link_with_a_remote() {
    let links = vec![
        Link::new("a".to_string(), Some(addr(1, 1)), 1),
        Link::new("b".to_string(), None, 1),
        Link::new("c".to_string(), Some(addr(3, 3)), 1),
    ];
    let mut links = LinkManager::new(links, BondingMode::Aggregate, 5_000, Some(3_000));
    assert!(links.probing());
    links.record_send(2, false, 0);
    let probes = links.send_health_pings(1_234);
    assert_eq!(probes.len(), 2);
    assert_eq!((probes[0].link, probes[0].remote), (0, addr(1, 1)));
    assert_eq!((probes[1].link, probes[1].remote), (2, addr(3, 3)));
    for probe in &probes {
        assert_eq!(probe.frame, build_control_packet(BOND_PING, 1_234));
    }

    links.record_probe(0, true, true, 1_234);
    links.record_probe(2, true, false, 1_234);
    assert_eq!(links.link(0).unwrap().last_ping_sent, Some(1_234));
    assert_eq!(links.link(0).unwrap().down_since, None);
    assert_eq!(links.link(2).unwrap().last_ping_sent, None);
    assert_eq!(links.link(2).unwrap().down_since, Some(1_234));
    links.record_probe(2, true, true, 2_000);
    assert_eq!(links.link(2).unwrap().last_ping_sent, Some(2_000));
    assert_eq!(links.link(2).unwrap().down_since, None);
    links.record_probe(7, true, true, 2_000);
}

#[test]
fn health_pings_are_off_without_a_timeout() {
    let links = manager(&[1, 1], BondingMode::Aggregate, None);
    assert!(!links.probing());
    assert!(links.send_health_pings(5).is_empty());
}

#[test]
fn ping_is_answered_by_a_pong_with_the_same_token() {
    let mut links = manager(&[1, 1], BondingMode::Aggregate, Some(3_000));
    let ping = build_control_packet(BOND_PING, 0xDEAD_BEEF);
    match links.handle_control_packet(1, &ping, 10) {
        ControlOutcome::Handled { reply: Some(probe) } => {
            assert_eq!(probe.link, 1);
            assert_eq!(probe.remote, addr(2, 51820));
            assert_eq!(probe.frame, build_control_packet(BOND_PONG, 0xDEAD_BEEF));
        }
        other => panic!("expected a pong, got {:?}", other),
    }
    links.record_probe(1, false, true, 10);
    assert_eq!(links.link(1).unwrap().last_ping_sent, None);
    assert_eq!(
        links.handle_control_packet(5, &ping, 10),
        ControlOutcome::Handled { reply: None }
    );
}

#[test]
fn pong_from_the_future_is_ignored() {
    let mut links = manager(&[1], BondingMode::Aggregate, Some(3_000));
    let pong = build_control_packet(BOND_PONG, 600);
    assert_eq!(links.handle_control_packet(0, &pong, 599), ControlOutcome::Handled { reply: None });
    assert_eq!(links.link(0).unwrap().last_rtt_ms, None);
    assert_eq!(links.handle_control_packet(0, &pong, 600), ControlOutcome::Handled { reply: None });
    assert_eq!(links.link(0).unwrap().last_rtt_ms, Some(0));
    assert_eq!(links.handle_control_packet(3, &pong, 700), ControlOutcome::Handled { reply: None });
}

#[test]
fn other_control_types_are_taken_and_ignored() {
    let mut links = manager(&[1], BondingMode::Aggregate, Some(3_000));
    let odd = build_control_packet(9, 1);
    assert_eq!(links.handle_control_packet(0, &odd, 5), ControlOutcome::Handled { reply: None });
    assert_eq!(links.link(0).unwrap().last_rtt_ms, None);
}

#[test]
fn tunnel_datagrams_are_not_control_frames() {
    let mut links = manager(&[1], BondingMode::Aggregate, Some(3_000));
    assert_eq!(links.handle_control_packet(0, &data(), 5), ControlOutcome::NotControl);
    assert_eq!(links.handle_control_packet(0, &[4u8; 13], 5), ControlOutcome::NotControl);
    assert_eq!(links.handle_control_packet(0, b"VTBD", 5), ControlOutcome::NotControl);
}

#[test]
fn has_endpoints_sees_any_remote() {
    let links = vec![Link::new("a".to_string(), None, 1), Link::new("b".to_string(), None, 1)];
    let mut links = LinkManager::new(links, BondingMode::Aggregate, 5_000, None);
    assert!(!links.has_endpoints());
    links.update_remote(1, addr(1, 1), 0);
    assert!(links.has_endpoints());
}

#[test]
fn silent_links_are_left_out_and_marked() {
    let mut links = manager(&[1, 1], BondingMode::Aggregate, Some(3_000));
    links.update_remote(0, addr(1, 51820), 0);
    links.update_remote(1, addr(2, 51820), 2_000);
    let (sent, _) = drive(&mut links, &data(), 4_000, &|_| true);
    assert_eq!(targets(&sent), vec![1]);
    assert_eq!(links.link(0).unwrap().down_since, Some(4_000));
    let (sent, step) = drive(&mut links, &data(), 6_000, &|_| true);
    assert!(sent.is_empty());
    assert_eq!(step, SendStep::Dropped);
    assert_eq!(links.link(1).unwrap().down_since, Some(6_000));
}

#[test]
fn manager_from_config_names_and_weighs_the_links() {
    let mut config = Config::default();
    config.wireguard.bonding_mode = Some(BondingMode::Failover);
    config.wireguard.health_check_timeout_ms = Some(2_500);
    config.wireguard.error_backoff_secs = Some(2);
    config.wireguard.links.push(WireGuardLinkConfig {
        name: None,
        bind: None,
        endpoint: None,
        weight: None,
    });
    config.wireguard.links.push(WireGuardLinkConfig {
        name: None,
        bind: None,
        endpoint: None,
        weight: Some(4),
    });
    for _ in 0..9 {
        config.wireguard.links.push(WireGuardLinkConfig {
            name: None,
            bind: None,
            endpoint: None,
            weight: None,
        });
    }
    let remotes = vec![Some(addr(1, 51820)), None];
    let mut links = LinkManager::from_config(&config.wireguard, &remotes);
    assert_eq!(links.len(), 12);
    assert_eq!(links.mode(), BondingMode::Failover);
    assert!(links.probing());
    assert_eq!(links.link(0).unwrap().name, "link-0");
    assert_eq!(links.link(0).unwrap().weight, 1);
    assert_eq!(links.link(0).unwrap().remote, Some(addr(1, 51820)));
    assert_eq!(links.link(1).unwrap().name, "link-1");
    assert_eq!(links.link(1).unwrap().weight, 1);
    assert_eq!(links.link(1).unwrap().remote, None);
    assert_eq!(links.link(2).unwrap().name, "link-2");
    assert_eq!(links.link(2).unwrap().weight, 4);
    assert_eq!(links.link(2).unwrap().remote, None);
    assert_eq!(links.link(11).unwrap().name, "link-11");
    assert_eq!(links.link(11).unwrap().down_since, None);

    links.record_send(0, false, 0);
    assert_eq!(links.best_failover_index(1_999), None);
    assert_eq!(links.best_failover_index(2_000), Some(0));
}

#[test]
fn a_scoped_peer_is_answered_with_its_scope() {
    let scoped = SocketAddress::V6 { ip: 0xfe80u128 << 112 | 9, port: 4000, flowinfo: 5, scope_id: 2 };
    let mut links = manager(&[1], BondingMode::Aggregate, Some(3_000));
    links.update_remote(0, scoped, 10);
    assert_eq!(links.link(0).unwrap().remote, Some(scoped));
    let (sent, _) = drive(&mut links, &data(), 11, &|_| true);
    assert_eq!(sent, vec![(0, scoped)]);
    let probes = links.send_health_pings(12);
    assert_eq!(probes[0].remote, scoped);
    match links.handle_control_packet(0, &build_control_packet(BOND_PING, 1), 13) {
        ControlOutcome::Handled { reply: Some(probe) } => assert_eq!(probe.remote, scoped),
        other => panic!("expected a pong, got {:?}", other),
    }
}
