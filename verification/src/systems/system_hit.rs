use vstd::prelude::*;

use super::System;
use crate::engine::{InnerCore, InnerCoreView};
use crate::message::CoreMessage;

verus! {

/// Reacts to hits; for now a hit leaves the core as it is.
pub struct HitMessageHandler;

impl System<CoreMessage> for HitMessageHandler {
    open spec fn effect(&self, core: InnerCoreView, msg: CoreMessage) -> InnerCoreView {
        core
    }

    fn handle(&mut self, _core: &mut InnerCore, msg: &CoreMessage) {
    }
}

} // verus!
