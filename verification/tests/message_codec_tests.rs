use reflector::engine::Core;
use reflector::lg::broadcast::ReflectorAddr;
use reflector::lg::broadcast_reply::ClientAddr;
use reflector::lg::msg::Inner;
use reflector::lg::socket_addr::Ip;
use reflector::lg::{BroadcastReply, Msg, SocketAddr, TargetHit};
use reflector::message::{CoreMessage, CreateNewSessionMsg, MsgWithTarget, OutgoingMessage};
use reflector::transport::udp_transport::{broadcast_frame, get_bc_message, has_ip};
use reflector::transport::{AddressBook, Endpoint, IpAddress};

const BROADCAST_BYTES: [u8; 17] = [
    0x0a, 0x01, 0x72, 0x12, 0x0c, 0x08, 0x01, 0x12, 0x08, 0x08, 0x81, 0x80, 0x80, 0x50, 0x18,
    0x85, 0x1a,
];

#[test]
fn broadcast_message_known_bytes() {
    let m = get_bc_message("r", IpAddress::V4(0x0a000001), 3333);
    assert_eq!(m.encode_to_vec(), BROADCAST_BYTES.to_vec());
}

#[test]
fn broadcast_message_decodes() {
    let m = Msg::decode(&BROADCAST_BYTES).unwrap();
    assert_eq!(m.hid, "r");
    match m.inner {
        Some(Inner::Broadcast(b)) => {
            assert_eq!(b.device_type, 1);
            match b.reflector_addr {
                Some(ReflectorAddr::SocketAddr(a)) => {
                    assert_eq!(a.port, 3333);
                    assert!(matches!(a.ip, Some(Ip::V4(0x0a000001))));
                }
                None => panic!("no address"),
            }
        }
        _ => panic!("not a broadcast"),
    }
}

#[test]
fn reply_with_v6_roundtrips() {
    let m = Msg {
        hid: "tägger".to_string(),
        inner: Some(Inner::BroadcastReply(BroadcastReply {
            device_type: -3,
            client_addr: Some(ClientAddr::SocketAddr(SocketAddr {
                ip: Some(Ip::V6((0u8..16).collect())),
                port: 0,
            })),
        })),
    };
    let bytes = m.encode_to_vec();
    let back = Msg::decode(&bytes).unwrap();
    assert_eq!(back.hid, "tägger");
    match back.inner {
        Some(Inner::BroadcastReply(r)) => {
            assert_eq!(r.device_type, -3);
            match r.client_addr {
                Some(ClientAddr::SocketAddr(a)) => {
                    assert_eq!(a.port, 0);
                    match a.ip {
                        Some(Ip::V6(b)) => assert_eq!(b, (0u8..16).collect::<Vec<u8>>()),
                        _ => panic!("not v6"),
                    }
                }
                None => panic!("no address"),
            }
        }
        _ => panic!("not a reply"),
    }
}

#[test]
fn hit_and_empty_message_roundtrip() {
    let m = Msg { hid: String::new(), inner: Some(Inner::TargetHit(TargetHit { from_id: 0 })) };
    let bytes = m.encode_to_vec();
    assert_eq!(bytes, vec![0x22, 0x00]);
    assert!(matches!(Msg::decode(&bytes).unwrap().inner, Some(Inner::TargetHit(TargetHit { from_id: 0 }))));
    let empty = Msg { hid: String::new(), inner: None };
    assert!(empty.encode_to_vec().is_empty());
    let back = Msg::decode(&[]).unwrap();
    assert!(back.hid.is_empty() && back.inner.is_none());
}

#[test]
fn repeated_message_fields_merge() {
    // broadcast { device_type = 1 } then broadcast { socket_addr { port = 5 } }
    let bytes = [0x12, 0x02, 0x08, 0x01, 0x12, 0x04, 0x12, 0x02, 0x18, 0x05];
    let m = Msg::decode(&bytes).unwrap();
    match m.inner {
        Some(Inner::Broadcast(b)) => {
            assert_eq!(b.device_type, 1);
            match b.reflector_addr {
                Some(ReflectorAddr::SocketAddr(a)) => {
                    assert_eq!(a.port, 5);
                    assert!(a.ip.is_none());
                }
                None => panic!("no address"),
            }
        }
        _ => panic!("not a broadcast"),
    }
}

#[test]
fn another_member_of_the_oneof_replaces() {
    // target_hit { from_id = 4 } then broadcast_reply { device_type = 2 }
    let bytes = [0x22, 0x02, 0x08, 0x04, 0x1a, 0x02, 0x08, 0x02];
    let m = Msg::decode(&bytes).unwrap();
    assert!(matches!(m.inner, Some(Inner::BroadcastReply(BroadcastReply { device_type: 2, client_addr: None }))));
}

#[test]
fn unknown_fields_are_skipped_and_malformed_input_rejected() {
    // unknown field 9 (varint), then hid "a"
    assert_eq!(Msg::decode(&[0x48, 0x01, 0x0a, 0x01, b'a']).unwrap().hid, "a");
    // hid that is not UTF-8
    assert!(Msg::decode(&[0x0a, 0x01, 0xff]).is_err());
    // hid with the wrong wire type
    assert!(Msg::decode(&[0x08, 0x01]).is_err());
    // a nested message longer than the buffer
    assert!(Msg::decode(&[0x12, 0x05, 0x08]).is_err());
    // a nested message with a truncated field inside
    assert!(Msg::decode(&[0x12, 0x01, 0x08]).is_err());
}

#[test]
fn datagram_records_sender() {
    let mut book = AddressBook::new();
    let peer = Endpoint { ip: IpAddress::V4(0xc0a80002), port: 7000 };
    let m = book.handle_recv_buffer(&BROADCAST_BYTES, peer).unwrap();
    assert_eq!(m.hid, "r");
    // the reflector "r" now reports another address: the observed one is used
    let out = OutgoingMessage::CreateNewSession(CreateNewSessionMsg {
        hid: "r".to_string(),
        addr: ClientAddr::SocketAddr(SocketAddr { ip: Some(Ip::V4(1)), port: 1 }),
        device_type: 2,
    });
    assert!(book.on_outgoing(out).is_none());
    assert_eq!(book.lookup(&"r".to_string()), Some(peer));
    assert!(book.handle_recv_buffer(&[0xff], peer).is_err());
}

#[test]
fn messages_for_known_devices_become_frames() {
    let mut book = AddressBook::new();
    let addr = ClientAddr::SocketAddr(SocketAddr { ip: Some(Ip::V4(5)), port: 6 });
    assert!(has_ip(&addr));
    book.add_address_entry("d".to_string(), addr);
    let msg = MsgWithTarget {
        target_hid: "d".to_string(),
        msg: Msg { hid: String::new(), inner: Some(Inner::TargetHit(TargetHit { from_id: 0 })) },
    };
    let frame = book.on_outgoing(OutgoingMessage::MsgWithTarget(msg)).unwrap();
    assert_eq!(frame.0, Endpoint { ip: IpAddress::V4(5), port: 6 });
    assert_eq!(frame.1, vec![0x22, 0x00]);
    let unknown = MsgWithTarget { target_hid: "x".to_string(), msg: Msg { hid: String::new(), inner: None } };
    assert!(book.frame_for(&unknown).is_none());
    assert!(!has_ip(&ClientAddr::SocketAddr(SocketAddr { ip: None, port: 6 })));
}

#[test]
fn broadcast_frame_goes_to_everyone() {
    let f = broadcast_frame("r", IpAddress::V4(0x0a000001), 3333);
    assert_eq!(f.0, Endpoint { ip: IpAddress::V4(0xffff_ffff), port: 3333 });
    assert_eq!(f.1, BROADCAST_BYTES.to_vec());
}

#[test]
fn answering_device_is_registered_and_reached_where_it_answered_from() {
    let mut core = Core::new();
    let mut book = AddressBook::new();
    let answer = Msg {
        hid: "tagger".to_string(),
        inner: Some(Inner::BroadcastReply(BroadcastReply {
            device_type: 2,
            client_addr: Some(ClientAddr::SocketAddr(SocketAddr { ip: Some(Ip::V4(0x0a000009)), port: 4000 })),
        })),
    };
    let peer = Endpoint { ip: IpAddress::V4(0x5db8d822), port: 61000 };
    let received = book.handle_recv_buffer(&answer.encode_to_vec(), peer).unwrap();
    core.on_message_received(CoreMessage::from(received));
    assert_eq!(core.state().devices.len(), 1);
    for out in core.take_outgoing() {
        assert!(book.on_outgoing(out).is_none());
    }
    assert_eq!(book.lookup(&"tagger".to_string()), Some(peer));
}
