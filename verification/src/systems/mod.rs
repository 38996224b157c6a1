//! Systems: each one reacts to the messages that reach the core.

pub mod router;
pub mod system_bc_reply;
pub mod system_hit;
pub mod system_infra;
pub mod system_unimpl;

use vstd::prelude::*;

use crate::engine::{InnerCore, InnerCoreView};

pub use system_bc_reply::BroadcastSystem;
pub use system_hit::HitMessageHandler;
pub use system_infra::InfraSystem;
pub use system_unimpl::{IgnoredMessageHandler, UnimplementedMessageHandler};

verus! {

/// A marker for the types that can travel as messages between core and transport.
pub trait MessageTrait {}

/// A part of the core that reacts to messages of type `M`.
pub trait System<M: MessageTrait> {
    /// What handling `msg` does to the core.
    spec fn effect(&self, core: InnerCoreView, msg: M) -> InnerCoreView;

    fn handle(&mut self, core: &mut InnerCore, msg: &M)
        ensures
            final(core)@ == old(self).effect(old(core)@, *msg),
            forall|c: InnerCoreView, m: M| #[trigger] final(self).effect(c, m) == old(self).effect(c, m),
    ;
}

} // verus!
