use vstd::prelude::*;

use super::MessageHandler;
use crate::engine::Core;

verus! {

/// A handler that leaves every message alone.
pub struct IgnoredMessageHandler;

impl IgnoredMessageHandler {
    pub fn new() -> (r: Self)
        ensures
            r == IgnoredMessageHandler,
    {
        IgnoredMessageHandler
    }
}

pub struct MsgFoo;

pub struct MsgBar;

pub struct SomeState;

impl MessageHandler for IgnoredMessageHandler {
    type Message = MsgFoo;

    fn handle(&self, _core: &Core, message: &MsgFoo) {
    }
}

} // verus!
