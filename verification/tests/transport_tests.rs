use reflector::api::infra::Stoppable;
use reflector::config::{SocketAddrConfig, TransportConfig};
use reflector::handlers::IgnoredMessageHandler;
use reflector::lg::broadcast::ReflectorAddr;
use reflector::lg::broadcast_reply::ClientAddr;
use reflector::lg::msg::Inner;
use reflector::lg::socket_addr::Ip;
use reflector::lg::SocketAddr;
use reflector::table::HidMap;
use reflector::transport::udp_transport::{broadcast_endpoint, get_bc_message, resolve_client_addr};
use reflector::transport::{AddressBook, Endpoint, IpAddress, UdpTransport2};

fn v4(ip: u32, port: u32) -> ClientAddr {
    ClientAddr::SocketAddr(SocketAddr { ip: Some(Ip::V4(ip)), port })
}

#[test]
fn reported_address_is_used_when_nothing_was_observed() {
    let mut book = AddressBook::new();
    book.add_address_entry("a".to_string(), v4(0x0a000002, 4000));
    assert_eq!(
        book.lookup(&"a".to_string()),
        Some(Endpoint { ip: IpAddress::V4(0x0a000002), port: 4000 })
    );
    assert_eq!(book.lookup(&"b".to_string()), None);
}

#[test]
fn observed_address_wins_behind_nat() {
    let mut book = AddressBook::new();
    let seen = Endpoint { ip: IpAddress::V4(0xc0a80001), port: 5555 };
    book.observe("a".to_string(), seen);
    book.add_address_entry("a".to_string(), v4(0x0a000002, 4000));
    assert_eq!(book.lookup(&"a".to_string()), Some(seen));
}

#[test]
fn port_is_cut_to_16_bits_and_v6_is_unspecified() {
    assert_eq!(
        resolve_client_addr(&v4(1, 0x1_0005)),
        Endpoint { ip: IpAddress::V4(1), port: 5 }
    );
    let a = ClientAddr::SocketAddr(SocketAddr { ip: Some(Ip::V6(vec![1; 16])), port: 80 });
    assert_eq!(resolve_client_addr(&a), Endpoint { ip: IpAddress::V6(0), port: 80 });
}

#[test]
fn broadcast_message_announces_reflector() {
    let m = get_bc_message("reflector", IpAddress::V4(0x0a000001), 3333);
    assert_eq!(m.hid, "reflector");
    match m.inner {
        Some(Inner::Broadcast(b)) => {
            assert_eq!(b.device_type, 1);
            match b.reflector_addr {
                Some(ReflectorAddr::SocketAddr(sa)) => {
                    assert_eq!(sa.port, 3333);
                    assert!(matches!(sa.ip, Some(Ip::V4(0x0a000001))));
                }
                None => panic!("no address"),
            }
        }
        _ => panic!("not a broadcast"),
    }
    assert_eq!(broadcast_endpoint(), Endpoint { ip: IpAddress::V4(0xffff_ffff), port: 3333 });
}

#[test]
fn hid_map_replaces_values() {
    let mut m: HidMap<u32> = HidMap::new();
    m.insert("a".to_string(), 1);
    m.insert("b".to_string(), 2);
    m.insert("a".to_string(), 3);
    assert_eq!(m.len(), 2);
    assert_eq!(m.get(&"a".to_string()), Some(&3));
    assert!(m.contains_key(&"b".to_string()));
    assert!(!m.contains_key(&"c".to_string()));
}

#[test]
fn announced_addr_defaults_to_bind_addr() {
    let mut c = TransportConfig {
        hid: "r".to_string(),
        bind_addr: SocketAddrConfig { ip: "0.0.0.0".to_string(), port: 3333 },
        advertise_addr: None,
    };
    assert_eq!(c.announced_addr().ip, "0.0.0.0");
    c.advertise_addr = Some(SocketAddrConfig { ip: "10.0.0.1".to_string(), port: 4444 });
    assert_eq!(c.announced_addr().port, 4444);
}

#[test]
fn constructors() {
    let _ = IgnoredMessageHandler::new();
    let t = UdpTransport2::new();
    t.stop();
}
