use std::cell::Cell;

use reflector::handlers::{MsgBar, MsgFoo};
use reflector::routing::{get_handler, route, CombinedMessage, Core, Handler};
use reflector::transport::udp2::answer;
use reflector::transport::{Endpoint, IpAddress};

struct Marker<'a> {
    id: u8,
    seen: &'a Cell<u8>,
}

impl<'a> Handler for Marker<'a> {
    fn handle(&self, _core: &Core, _message: &CombinedMessage) {
        self.seen.set(self.id);
    }
}

#[test]
fn foo_goes_to_the_first_handler_and_bar_to_the_second() {
    let seen = Box::leak(Box::new(Cell::new(0u8)));
    let handlers: Vec<Box<dyn Handler>> =
        vec![Box::new(Marker { id: 1, seen }), Box::new(Marker { id: 2, seen })];
    let core = Core {};
    let foo = CombinedMessage::Foo(MsgFoo);
    get_handler(&foo, &handlers).handle(&core, &foo);
    assert_eq!(seen.get(), 1);
    let bar = CombinedMessage::Bar(MsgBar);
    get_handler(&bar, &handlers).handle(&core, &bar);
    assert_eq!(seen.get(), 2);
}

#[test]
fn a_single_handler_serves_foo() {
    let seen = Box::leak(Box::new(Cell::new(0u8)));
    let handlers: Vec<Box<dyn Handler>> = vec![Box::new(Marker { id: 7, seen })];
    let foo = CombinedMessage::Foo(MsgFoo);
    get_handler(&foo, &handlers).handle(&Core {}, &foo);
    assert_eq!(seen.get(), 7);
}

#[test]
fn packet_info_is_answered_with_the_text() {
    let sender = Endpoint { ip: IpAddress::V4(0x7f000001), port: 5555 };
    let frame = answer(true, sender).expect("an answer");
    assert_eq!(frame.0, sender);
    assert_eq!(frame.1, b"test123\n".to_vec());
}

#[test]
fn other_control_messages_get_no_answer() {
    let sender = Endpoint { ip: IpAddress::V6(1), port: 1 };
    assert!(answer(false, sender).is_none());
}

#[test]
fn route_picks_the_entry_for_the_kind() {
    let by_kind = [10u8, 20u8];
    assert_eq!(*route(&CombinedMessage::Foo(MsgFoo), &by_kind), 10);
    assert_eq!(*route(&CombinedMessage::Bar(MsgBar), &by_kind), 20);
}
