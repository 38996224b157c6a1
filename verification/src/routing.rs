//! Routing of combined messages: one handler for each kind of message.

use vstd::prelude::*;

use crate::handlers::{MsgBar, MsgFoo};

verus! {

/// What handlers are given alongside a message.
pub struct Core {}

/// A message of one of two kinds.
pub enum CombinedMessage {
    Foo(MsgFoo),
    Bar(MsgBar),
}

/// Handles combined messages.
pub trait Handler {
    fn handle(&self, core: &Core, message: &CombinedMessage);
}

/// The position of the handler for `msg`: the first handler takes `Foo`, the second `Bar`.
pub open spec fn handler_index(msg: CombinedMessage) -> int {
    match msg {
        CombinedMessage::Foo(_) => 0,
        CombinedMessage::Bar(_) => 1,
    }
}

/// The entry for the kind of `msg` among `by_kind`, which holds one entry for each kind.
pub fn route<'a, T>(msg: &CombinedMessage, by_kind: &'a [T]) -> (r: &'a T)
    requires
        handler_index(*msg) < by_kind@.len(),
    ensures
        *r == by_kind@[handler_index(*msg)],
{
    match msg {
        CombinedMessage::Foo(_) => &by_kind[0],
        CombinedMessage::Bar(_) => &by_kind[1],
    }
}

/// The handler for `msg` among `handlers`, which are indexed by kind of message.
pub fn get_handler<'a>(msg: &CombinedMessage, handlers: &'a [Box<dyn Handler>]) -> (r: &'a Box<
    dyn Handler,
>)
    requires
        handler_index(*msg) < handlers@.len(),
    ensures
        *r == handlers@[handler_index(*msg)],
{
    route(msg, handlers)
}

} // verus!
