//! Message handlers that take a message of one type each.

pub mod handler_unimpl;

use vstd::prelude::*;

use crate::engine::Core;

pub use handler_unimpl::{IgnoredMessageHandler, MsgBar, MsgFoo, SomeState};

verus! {

/// Handles messages of one type, reading the core.
pub trait MessageHandler {
    type Message;

    fn handle(&self, core: &Core, message: &Self::Message);
}

/// A marker for the types that handlers take.
pub trait MessageTrait {}

} // verus!
