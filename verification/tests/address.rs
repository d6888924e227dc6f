use vtrunkd::address::default_bind_addr;
use vtrunkd::address::link_bind_addr;
use vtrunkd::address::parse_bind_addr;
use vtrunkd::address::BindReading;
use vtrunkd::address::IpAddress;
use vtrunkd::address::SocketAddress;
use vtrunkd::config::Config;
use vtrunkd::error::VtrunkdError;

fn v4(a: u8, b: u8, c: u8, d: u8) -> IpAddress {
    IpAddress::V4(u32::from_be_bytes([a, b, c, d]))
}

#[test]
fn parse_bind_addr_accepts_ip_only() {
    let addr = parse_bind_addr("127.0.0.1", BindReading::Ip(v4(127, 0, 0, 1))).expect("parse bind addr");
    let expected = SocketAddress::new(IpAddress::V4(0x7F00_0001), 0);
    assert_eq!(addr, expected);
}

#[test]
fn default_bind_addr_prefers_ipv6_for_ipv6_remote() {
    let remote = SocketAddress::new(IpAddress::V6(1), 51820);
    let bind_addr = default_bind_addr(Some(remote));
    let expected = SocketAddress::new(IpAddress::V6(0), 0);
    assert_eq!(bind_addr, expected);
}

#[test]
fn default_bind_addr_is_ipv4_otherwise() {
    let any_v4 = SocketAddress::new(IpAddress::V4(0), 0);
    assert_eq!(default_bind_addr(None), any_v4);
    let remote = SocketAddress::new(IpAddress::V4(0x0A00_0001), 51820);
    assert_eq!(default_bind_addr(Some(remote)), any_v4);
}

#[test]
fn parse_bind_addr_keeps_a_given_port() {
    let addr = parse_bind_addr(
        "10.0.0.7:4000",
        BindReading::Socket(SocketAddress::new(v4(10, 0, 0, 7), 4000)),
    ).unwrap();
    assert_eq!(addr, SocketAddress::new(IpAddress::V4(0x0A00_0007), 4000));
    let addr = parse_bind_addr(
        "[::1]:9",
        BindReading::Socket(SocketAddress::new(IpAddress::V6(1), 9)),
    ).unwrap();
    assert_eq!(addr, SocketAddress::new(IpAddress::V6(1), 9));
    let addr = parse_bind_addr("::1", BindReading::Ip(IpAddress::V6(1))).unwrap();
    assert_eq!(addr, SocketAddress::new(IpAddress::V6(1), 0));
}

#[test]
fn parse_bind_addr_reports_what_it_cannot_read() {
    match parse_bind_addr("eth0", BindReading::Unreadable) {
        Err(VtrunkdError::InvalidConfig(text)) => {
            assert_eq!(text, "Invalid WireGuard bind address: eth0")
        }
        other => panic!("unexpected {:?}", other),
    }
}

#[test]
fn link_bind_addr_uses_the_configured_address_first() {
    let remote = Some(SocketAddress::new(IpAddress::V6(5), 1));
    assert_eq!(
        link_bind_addr(Some(("10.0.0.7", BindReading::Ip(v4(10, 0, 0, 7)))), remote).unwrap(),
        SocketAddress::new(IpAddress::V4(0x0A00_0007), 0)
    );
    assert_eq!(
        link_bind_addr(None, remote).unwrap(),
        SocketAddress::new(IpAddress::V6(0), 0)
    );
    assert_eq!(
        link_bind_addr(None, None).unwrap(),
        SocketAddress::new(IpAddress::V4(0), 0)
    );
    assert!(matches!(
        link_bind_addr(Some(("nope", BindReading::Unreadable)), remote),
        Err(VtrunkdError::InvalidConfig(_))
    ));
}

#[test]
fn tunnel_device_settings_come_from_the_configuration() {
    let mut config = Config::default();
    assert_eq!(config.network.interface_name(), "tun0");
    assert_eq!(config.network.device_mtu(), 1420);
    config.network.interface = Some("bond0".to_string());
    config.network.mtu = 65535;
    assert_eq!(config.network.interface_name(), "bond0");
    assert_eq!(config.network.device_mtu(), 65535);
    config.network.mtu = 65536 + 9;
    assert_eq!(config.network.device_mtu(), 9);
}

#[test]
fn socket_address_keeps_scope_and_flow() {
    let plain = SocketAddress::new(IpAddress::V6(0xfe80u128 << 112 | 1), 51820);
    assert_eq!(
        plain,
        SocketAddress::V6 { ip: 0xfe80u128 << 112 | 1, port: 51820, flowinfo: 0, scope_id: 0 }
    );
    let scoped = SocketAddress::V6 { ip: 0xfe80u128 << 112 | 1, port: 51820, flowinfo: 7, scope_id: 3 };
    assert_ne!(scoped, plain);
    assert_eq!(scoped.ip(), plain.ip());
    assert_eq!(scoped.ip(), IpAddress::V6(0xfe80u128 << 112 | 1));
    assert_eq!(scoped.port(), 51820);
    assert_eq!(
        parse_bind_addr("[fe80::1%3]:51820", BindReading::Socket(scoped)).unwrap(),
        scoped
    );
    assert_eq!(default_bind_addr(Some(scoped)), SocketAddress::new(IpAddress::V6(0), 0));

    let v4 = SocketAddress::new(IpAddress::V4(0x0A00_0001), 9);
    assert_eq!(v4, SocketAddress::V4 { ip: 0x0A00_0001, port: 9 });
    assert_eq!((v4.ip(), v4.port()), (IpAddress::V4(0x0A00_0001), 9));
}
