//! The core: it holds the game state and lets its systems react to each message.

use std::sync::atomic::{AtomicBool, Ordering};
use std::sync::Arc;

use vstd::prelude::*;

use crate::api::infra::Stoppable;
use crate::game::state::{Device, State};
use crate::message::{CoreMessage, CreateNewSessionMsg, OutgoingMessage, OutgoingView};
use crate::systems::router::{apply_all, core_step, get_registrations, get_systems, Registration};
use crate::systems::System;

verus! {

/// What the core holds, as the systems see it.
pub struct InnerCoreView {
    /// The registered devices, by hardware id.
    pub devices: Map<Seq<char>, Device>,
    /// The messages for the transport that have not been taken yet, oldest first.
    pub outbox: Seq<OutgoingView>,
    /// Whether a message asked the core to stop.
    pub stop_requested: bool,
}

/// The part of the core that systems work on.
pub struct InnerCore {
    pub(crate) state: State,
    pub(crate) outbox: Vec<OutgoingMessage>,
    pub(crate) stop_requested: bool,
    pub(crate) shutdown_hook: Arc<CoreShutdownHook>,
}

impl View for InnerCore {
    type V = InnerCoreView;

    closed spec fn view(&self) -> InnerCoreView {
        InnerCoreView {
            devices: self.state.devices@,
            outbox: self.outbox@.map_values(|m: OutgoingMessage| m@),
            stop_requested: self.stop_requested,
        }
    }
}

impl InnerCore {
    /// Whether the device `hid` is registered.
    pub(crate) fn contains_device(&self, hid: &String) -> (r: bool)
        ensures
            r == self@.devices.dom().contains(hid@),
    {
        self.state.devices.contains_key(hid)
    }

    /// Registers `device` and queues `session` for the transport.
    pub(crate) fn register(&mut self, device: Device, session: CreateNewSessionMsg)
        ensures
            final(self)@ == (InnerCoreView {
                devices: old(self)@.devices.insert(device.hid@, device),
                outbox: old(self)@.outbox.push(OutgoingView::CreateNewSession(session@)),
                ..old(self)@
            }),
    {
        let key = device.hid.clone();
        self.state.devices.insert(key, device);
        let ghost before = self.outbox@;
        self.outbox.push(OutgoingMessage::CreateNewSession(session));
        assert(self.outbox@.map_values(|m: OutgoingMessage| m@) =~= before.map_values(
            |m: OutgoingMessage| m@,
        ).push(OutgoingView::CreateNewSession(session@)));
    }

    /// Records that the core was asked to stop, and pulls the shutdown hook.
    pub(crate) fn request_stop(&mut self)
        ensures
            final(self)@ == (InnerCoreView { stop_requested: true, ..old(self)@ }),
    {
        self.stop_requested = true;
        self.shutdown_hook.stop();
    }
}

/// The core of the reflector.
pub struct Core {
    should_stop: Arc<AtomicBool>,
    systems: Vec<Registration>,
    inner_core: InnerCore,
}

impl View for Core {
    type V = InnerCoreView;

    closed spec fn view(&self) -> InnerCoreView {
        self.inner_core@
    }
}

impl Core {
    /// The registered systems are those of the router, in its order.
    pub closed spec fn wf(&self) -> bool {
        forall|core: InnerCoreView, msg: CoreMessage|
            #[trigger] apply_all(self.systems@, core, msg) == core_step(core, msg)
    }

    /// A core with no devices, nothing to send, no stop requested, and the router's systems.
    pub fn new() -> (r: Self)
        ensures
            r.wf(),
            r@.devices == Map::<Seq<char>, Device>::empty(),
            r@.outbox == Seq::<OutgoingView>::empty(),
            !r@.stop_requested,
    {
        let should_stop = Arc::new(AtomicBool::new(false));
        let shutdown_hook = Arc::new(CoreShutdownHook { should_stop: should_stop.clone() });
        let outbox: Vec<OutgoingMessage> = Vec::new();
        let r = Core {
            should_stop,
            inner_core: InnerCore {
                state: State::default(),
                outbox,
                stop_requested: false,
                shutdown_hook,
            },
            systems: get_registrations(),
        };
        assert(r@.outbox =~= Seq::<OutgoingView>::empty());
        r
    }

    /// Lets every system handle `msg`, in the order of the router.
    pub fn on_message_received(&mut self, msg: CoreMessage)
        requires
            old(self).wf(),
        ensures
            final(self).wf(),
            final(self)@ == core_step(old(self)@, msg),
    {
        let systems = get_systems(&self.systems, &msg);
        let n = systems.len();
        let ghost start = self.inner_core@;
        let ghost all = self.systems@;
        let mut k: usize = 0;
        while k < n
            invariant
                n == systems@.len(),
                n == all.len(),
                systems@ == Seq::new(all.len(), |i: int| i as usize),
                self.systems@ == all,
                k <= n,
                self.inner_core@ == apply_all(all.take(k as int), start, msg),
            decreases n - k,
        {
            let i = systems[k];
            proof {
                assert(all.take(k + 1).drop_last() =~= all.take(k as int));
            }
            self.systems[i].handle(&mut self.inner_core, &msg);
            k = k + 1;
        }
        proof {
            assert(all.take(n as int) =~= all);
        }
    }

    /// Whether the core should stop: a shutdown message was handled, or the hook was pulled.
    /// Whether the hook was pulled is read from a flag that other threads set; what was read
    /// decides as `should_stop_given` says.
    pub fn should_stop(&self) -> (r: bool)
        ensures
            self@.stop_requested ==> r,
    {
        let hook_pulled = self.should_stop.load(Ordering::Relaxed);
        self.should_stop_given(hook_pulled)
    }

    /// Whether the core should stop when the shutdown hook was found pulled or not: exactly
    /// when a shutdown message was handled or the hook was pulled.
    pub fn should_stop_given(&self, hook_pulled: bool) -> (r: bool)
        ensures
            r == (self@.stop_requested || hook_pulled),
    {
        self.inner_core.stop_requested || hook_pulled
    }

    /// Hands out the messages for the transport, oldest first, and forgets them.
    pub fn take_outgoing(&mut self) -> (r: Vec<OutgoingMessage>)
        requires
            old(self).wf(),
        ensures
            final(self).wf(),
            r@.map_values(|m: OutgoingMessage| m@) == old(self)@.outbox,
            final(self)@ == (InnerCoreView { outbox: Seq::empty(), ..old(self)@ }),
    {
        let mut out: Vec<OutgoingMessage> = Vec::new();
        std::mem::swap(&mut out, &mut self.inner_core.outbox);
        assert(self@.outbox =~= Seq::<OutgoingView>::empty());
        out
    }

    /// The devices that the core has registered.
    pub fn state(&self) -> (r: &State)
        ensures
            r.devices@ == self@.devices,
    {
        &self.inner_core.state
    }

    /// The hook that makes this core stop.
    pub closed spec fn shutdown_hook(&self) -> CoreShutdownHook {
        *self.inner_core.shutdown_hook
    }

    /// A hook with which another thread can make the core stop.
    pub fn get_shutdown_hook(&self) -> (r: Arc<CoreShutdownHook>)
        ensures
            *r == self.shutdown_hook(),
    {
        self.inner_core.shutdown_hook.clone()
    }
}

/// Makes the core stop, from wherever it is held.
pub struct CoreShutdownHook {
    should_stop: Arc<AtomicBool>,
}

impl Stoppable for CoreShutdownHook {
    fn stop(&self) {
        self.should_stop.store(true, Ordering::Relaxed);
    }
}

} // verus!
