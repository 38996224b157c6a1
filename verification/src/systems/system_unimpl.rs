use vstd::prelude::*;

use super::System;
use crate::engine::{InnerCore, InnerCoreView};
use crate::message::CoreMessage;

verus! {

/// Takes note of every message and does nothing with it.
pub struct IgnoredMessageHandler;

/// Stands for a handler that is still to be written: it does nothing.
pub struct UnimplementedMessageHandler;

impl System<CoreMessage> for IgnoredMessageHandler {
    open spec fn effect(&self, core: InnerCoreView, msg: CoreMessage) -> InnerCoreView {
        core
    }

    fn handle(&mut self, _core: &mut InnerCore, msg: &CoreMessage) {
    }
}

impl System<CoreMessage> for UnimplementedMessageHandler {
    open spec fn effect(&self, core: InnerCoreView, msg: CoreMessage) -> InnerCoreView {
        core
    }

    fn handle(&mut self, _core: &mut InnerCore, msg: &CoreMessage) {
    }
}

} // verus!
