//! Network and environment policy.

use ferrous::capability::CapabilityGrant;
use ferrous::policy::{
    selected_environment, IpAddress, NetworkPolicy, SocketAddress, SocketUse,
};

fn grant_with_ports(ports: &[u16]) -> CapabilityGrant {
    let mut grant = CapabilityGrant::empty();
    for port in ports {
        grant = grant.allow_loopback_port(*port);
    }
    grant
}

fn v4(octets: [u8; 4], port: u16) -> SocketAddress {
    SocketAddress {
        ip: IpAddress::V4(octets),
        port,
    }
}

#[test]
fn empty_grant_denies_all_networking() {
    let policy = NetworkPolicy::from_grant(&CapabilityGrant::empty());
    assert!(!policy.tcp);
    assert!(!policy.udp);
    assert!(policy.allowed_ports.is_empty());
}

#[test]
fn loopback_grant_allows_only_that_port_and_use() {
    let policy = NetworkPolicy::from_grant(&grant_with_ports(&[3000]));
    assert!(policy.tcp);

    let loopback = v4([127, 0, 0, 1], 3000);
    assert!(policy.permits(loopback, SocketUse::TcpConnect));
    assert!(policy.permits(loopback, SocketUse::TcpBind));
    assert!(!policy.permits(loopback, SocketUse::UdpConnect));
    assert!(!policy.permits(loopback, SocketUse::UdpBind));

    let other_port = v4([127, 0, 0, 1], 3001);
    assert!(!policy.permits(other_port, SocketUse::TcpConnect));

    let non_loopback = v4([10, 0, 0, 1], 3000);
    assert!(!policy.permits(non_loopback, SocketUse::TcpConnect));

    let broadcast = v4([0, 0, 0, 0], 3000);
    assert!(!policy.permits(broadcast, SocketUse::TcpBind));
}

#[test]
fn multiple_allowed_ports_are_all_permitted() {
    let policy = NetworkPolicy::from_grant(&grant_with_ports(&[3000, 5173]));
    assert!(policy.permits(v4([127, 0, 0, 1], 3000), SocketUse::TcpConnect));
    assert!(policy.permits(v4([127, 0, 0, 1], 5173), SocketUse::TcpConnect));
}

#[test]
fn environment_selection_filters_by_allowlist() {
    let grant = CapabilityGrant::empty()
        .allow_environment("ALLOWED")
        .expect("valid name")
        .allow_environment("PATH")
        .expect("valid name");
    let provider = |name: &str| match name {
        "ALLOWED" => Some("value-1".to_owned()),
        "PATH" => Some("/usr/bin".to_owned()),
        "SECRET" => Some("leak".to_owned()),
        _ => None,
    };

    let environment = selected_environment(&grant, &provider);
    assert_eq!(
        environment,
        vec![
            ("ALLOWED".to_owned(), "value-1".to_owned()),
            ("PATH".to_owned(), "/usr/bin".to_owned()),
        ]
    );
}

#[test]
fn environment_selection_drops_missing_values() {
    let grant = CapabilityGrant::empty()
        .allow_environment("MISSING")
        .expect("valid name");
    assert!(selected_environment(&grant, &|_: &str| None).is_empty());
}

#[test]
fn unallowed_names_are_never_queried() {
    let grant = CapabilityGrant::empty();
    let queried = std::cell::RefCell::new(Vec::new());
    let provider = |name: &str| {
        queried.borrow_mut().push(name.to_owned());
        Some("value".to_owned())
    };
    let _ = selected_environment(&grant, &provider);
    assert!(queried.borrow().is_empty());
}

#[test]
fn the_ipv6_loopback_is_a_loopback() {
    let policy = NetworkPolicy::from_grant(&grant_with_ports(&[3000]));
    let loopback = SocketAddress {
        ip: IpAddress::V6([0, 0, 0, 0, 0, 0, 0, 1]),
        port: 3000,
    };
    assert!(policy.permits(loopback, SocketUse::TcpConnect));
    let other = SocketAddress {
        ip: IpAddress::V6([0, 0, 0, 0, 0, 0, 0, 2]),
        port: 3000,
    };
    assert!(!policy.permits(other, SocketUse::TcpConnect));
    let settings = policy.apply();
    assert!(settings.tcp && !settings.udp && !settings.ip_name_lookup && settings.check_addresses);
}
