use vstd::prelude::*;

use super::System;
use crate::engine::{InnerCore, InnerCoreView};
use crate::message::CoreMessage;

verus! {

/// Reacts to the messages that concern the core itself: a shutdown stops it.
pub struct InfraSystem;

/// A shutdown message asks the core to stop; nothing else concerns this system.
pub open spec fn infra_effect(core: InnerCoreView, msg: CoreMessage) -> InnerCoreView {
    match msg {
        CoreMessage::Shutdown => InnerCoreView { stop_requested: true, ..core },
        _ => core,
    }
}

impl System<CoreMessage> for InfraSystem {
    open spec fn effect(&self, core: InnerCoreView, msg: CoreMessage) -> InnerCoreView {
        infra_effect(core, msg)
    }

    fn handle(&mut self, core: &mut InnerCore, msg: &CoreMessage) {
        match msg {
            CoreMessage::Shutdown => {
                core.request_stop();
            },
            _ => {},
        }
    }
}

} // verus!
