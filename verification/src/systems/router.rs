use vstd::prelude::*;

use super::system_bc_reply::broadcast_effect;
use super::system_infra::infra_effect;
use super::{
    BroadcastSystem, HitMessageHandler, IgnoredMessageHandler, InfraSystem, MessageTrait, System,
    UnimplementedMessageHandler,
};
use crate::engine::{InnerCore, InnerCoreView};
use crate::message::CoreMessage;

verus! {

/// What handling `msg` by each system of `systems` in turn does to the core.
pub open spec fn apply_all<M: MessageTrait, S: System<M>>(
    systems: Seq<S>,
    core: InnerCoreView,
    msg: M,
) -> InnerCoreView
    decreases systems.len(),
{
    if systems.len() == 0 {
        core
    } else {
        systems.last().effect(apply_all(systems.drop_last(), core, msg), msg)
    }
}

/// What the registered systems together do with one message.
pub open spec fn core_step(core: InnerCoreView, msg: CoreMessage) -> InnerCoreView {
    infra_effect(broadcast_effect(core, msg), msg)
}

/// A system that the router knows of.
pub enum Registration {
    Broadcast(BroadcastSystem),
    Ignored(IgnoredMessageHandler),
    Infra(InfraSystem),
    Hit(HitMessageHandler),
    Unimplemented(UnimplementedMessageHandler),
}

impl System<CoreMessage> for Registration {
    open spec fn effect(&self, core: InnerCoreView, msg: CoreMessage) -> InnerCoreView {
        match self {
            Registration::Broadcast(s) => s.effect(core, msg),
            Registration::Ignored(s) => s.effect(core, msg),
            Registration::Infra(s) => s.effect(core, msg),
            Registration::Hit(s) => s.effect(core, msg),
            Registration::Unimplemented(s) => s.effect(core, msg),
        }
    }

    fn handle(&mut self, core: &mut InnerCore, msg: &CoreMessage)
        ensures
            *final(self) == *old(self),
    {
        match self {
            Registration::Broadcast(s) => s.handle(core, msg),
            Registration::Ignored(s) => s.handle(core, msg),
            Registration::Infra(s) => s.handle(core, msg),
            Registration::Hit(s) => s.handle(core, msg),
            Registration::Unimplemented(s) => s.handle(core, msg),
        }
    }
}

/// The positions of the systems that `msg` goes to: every system gets every message.
pub fn get_systems<T: MessageTrait, S: System<T>>(systems: &Vec<S>, _msg: &T) -> (r: Vec<usize>)
    ensures
        r@ == Seq::new(systems@.len(), |i: int| i as usize),
{
    let n = systems.len();
    let mut r: Vec<usize> = Vec::new();
    let mut i: usize = 0;
    while i < n
        invariant
            n == systems@.len(),
            i <= n,
            r@ == Seq::new(i as nat, |j: int| j as usize),
        decreases n - i,
    {
        r.push(i);
        i = i + 1;
        assert(r@ =~= Seq::new(i as nat, |j: int| j as usize));
    }
    r
}

/// The systems of the core, in the order in which they see each message.
pub fn get_registrations() -> (r: Vec<Registration>)
    ensures
        r@.len() == 4,
        r@[0] == Registration::Broadcast(BroadcastSystem {}),
        r@[1] == Registration::Ignored(IgnoredMessageHandler),
        r@[2] == Registration::Infra(InfraSystem),
        r@[3] == Registration::Hit(HitMessageHandler),
        forall|core: InnerCoreView, msg: CoreMessage|
            #[trigger] apply_all(r@, core, msg) == core_step(core, msg),
{
    let mut r: Vec<Registration> = Vec::new();
    r.push(Registration::Broadcast(BroadcastSystem {}));
    r.push(Registration::Ignored(IgnoredMessageHandler {}));
    r.push(Registration::Infra(InfraSystem {}));
    r.push(Registration::Hit(HitMessageHandler {}));
    assert forall|core: InnerCoreView, msg: CoreMessage|
        #[trigger] apply_all(r@, core, msg) == core_step(core, msg) by {
        let s = r@;
        assert(s.drop_last().drop_last().drop_last().drop_last() =~= Seq::<Registration>::empty());
        reveal_with_fuel(apply_all, 5);
    }
    r
}

} // verus!
