use reflector::api::infra::Stoppable;
use reflector::engine::Core;
use reflector::lg::broadcast_reply::ClientAddr;
use reflector::lg::msg::Inner;
use reflector::lg::socket_addr::Ip;
use reflector::lg::{Broadcast, BroadcastReply, Msg, SocketAddr, TargetHit};
use reflector::message::{CoreMessage, OutgoingMessage};

fn reply(device_type: i32, ip: u32, port: u32) -> BroadcastReply {
    BroadcastReply {
        device_type,
        client_addr: Some(ClientAddr::SocketAddr(SocketAddr { ip: Some(Ip::V4(ip)), port })),
    }
}

#[test]
fn new_core_is_empty() {
    let mut core = Core::new();
    assert_eq!(core.state().devices.len(), 0);
    assert!(core.take_outgoing().is_empty());
    assert!(!core.should_stop());
}

#[test]
fn reply_registers_device_and_requests_session() {
    let mut core = Core::new();
    core.on_message_received(CoreMessage::BroadcastReply("tagger-1".to_string(), reply(2, 0x0a000001, 4000)));
    let dev = core.state().devices.get(&"tagger-1".to_string()).unwrap();
    assert_eq!(dev.hid(), "tagger-1");
    assert_eq!(dev.device_type(), 2);
    let out = core.take_outgoing();
    assert_eq!(out.len(), 1);
    match &out[0] {
        OutgoingMessage::CreateNewSession(s) => {
            assert_eq!(s.hid, "tagger-1");
            assert_eq!(s.device_type, 2);
            match &s.addr {
                ClientAddr::SocketAddr(a) => {
                    assert_eq!(a.port, 4000);
                    assert!(matches!(a.ip, Some(Ip::V4(0x0a000001))));
                }
            }
        }
        OutgoingMessage::MsgWithTarget(_) => panic!("expected a session request"),
    }
    assert!(core.take_outgoing().is_empty());
}

#[test]
fn duplicate_reply_is_ignored() {
    let mut core = Core::new();
    core.on_message_received(CoreMessage::BroadcastReply("a".to_string(), reply(2, 1, 1)));
    let _ = core.take_outgoing();
    core.on_message_received(CoreMessage::BroadcastReply("a".to_string(), reply(9, 2, 2)));
    assert!(core.take_outgoing().is_empty());
    assert_eq!(core.state().devices.len(), 1);
    assert_eq!(core.state().devices.get(&"a".to_string()).unwrap().device_type(), 2);
}

#[test]
fn reply_without_address_is_ignored() {
    let mut core = Core::new();
    let r = BroadcastReply { device_type: 2, client_addr: None };
    core.on_message_received(CoreMessage::BroadcastReply("b".to_string(), r));
    assert_eq!(core.state().devices.len(), 0);
    assert!(core.take_outgoing().is_empty());
}

#[test]
fn several_devices_in_order() {
    let mut core = Core::new();
    core.on_message_received(CoreMessage::BroadcastReply("a".to_string(), reply(1, 1, 1)));
    core.on_message_received(CoreMessage::BroadcastReply("b".to_string(), reply(2, 2, 2)));
    assert_eq!(core.state().devices.len(), 2);
    let out = core.take_outgoing();
    assert_eq!(out.len(), 2);
    match (&out[0], &out[1]) {
        (OutgoingMessage::CreateNewSession(x), OutgoingMessage::CreateNewSession(y)) => {
            assert_eq!(x.hid, "a");
            assert_eq!(y.hid, "b");
        }
        _ => panic!("expected two session requests"),
    }
}

#[test]
fn shutdown_stops_core() {
    let mut core = Core::new();
    core.on_message_received(CoreMessage::Shutdown);
    assert!(core.should_stop());
    assert_eq!(core.state().devices.len(), 0);
}

#[test]
fn shutdown_hook_stops_core() {
    let core = Core::new();
    let hook = core.get_shutdown_hook();
    assert!(!core.should_stop());
    hook.stop();
    assert!(core.should_stop());
}

#[test]
fn hits_and_unknown_messages_change_nothing() {
    let mut core = Core::new();
    core.on_message_received(CoreMessage::TargetHit("a".to_string(), 3));
    core.on_message_received(CoreMessage::UnknownMessage);
    assert_eq!(core.state().devices.len(), 0);
    assert!(core.take_outgoing().is_empty());
    assert!(!core.should_stop());
}

#[test]
fn core_message_from_wire_message() {
    let m = Msg { hid: "x".to_string(), inner: Some(Inner::TargetHit(TargetHit { from_id: 7 })) };
    assert!(matches!(CoreMessage::from(m), CoreMessage::TargetHit(h, 7) if h == "x"));
    let m = Msg { hid: "x".to_string(), inner: Some(Inner::BroadcastReply(reply(2, 1, 1))) };
    assert!(matches!(CoreMessage::from(m), CoreMessage::BroadcastReply(h, r) if h == "x" && r.device_type == 2));
    let m = Msg {
        hid: "x".to_string(),
        inner: Some(Inner::Broadcast(Broadcast { device_type: 1, reflector_addr: None })),
    };
    assert!(matches!(CoreMessage::from(m), CoreMessage::UnknownMessage));
}

#[test]
fn handling_twice_is_handling_once() {
    let mut once = Core::new();
    once.on_message_received(CoreMessage::BroadcastReply("a".to_string(), reply(2, 1, 1)));
    let mut twice = Core::new();
    twice.on_message_received(CoreMessage::BroadcastReply("a".to_string(), reply(2, 1, 1)));
    twice.on_message_received(CoreMessage::BroadcastReply("a".to_string(), reply(2, 1, 1)));
    assert_eq!(once.take_outgoing().len(), twice.take_outgoing().len());
    assert_eq!(once.state().devices.len(), twice.state().devices.len());
}

#[test]
fn stop_decision_given_the_hook() {
    let mut core = Core::new();
    assert!(!core.should_stop_given(false));
    assert!(core.should_stop_given(true));
    core.on_message_received(CoreMessage::Shutdown);
    assert!(core.should_stop_given(false));
}
