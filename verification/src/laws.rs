//! What holds of every step of the core, whatever it holds and whatever message comes.

use vstd::prelude::*;

use crate::engine::InnerCoreView;
use crate::game::state::Device;
use crate::lg::msg::Inner;
use crate::lg::{BroadcastReply, Msg};
use crate::message::{core_message_of, CoreMessage, CreateNewSessionView, OutgoingView};
use crate::systems::router::core_step;
use crate::transport::udp_transport::{
    chosen_endpoint, client_addr_has_ip, client_endpoint, Endpoint,
};

verus! {

/// A reply from a device that is not registered, with an address, registers the device under
/// its hardware id and queues exactly one session request for it; nothing else changes.
pub proof fn law_reply_registers_new_device(core: InnerCoreView, hid: String, reply: BroadcastReply)
    requires
        !core.devices.dom().contains(hid@),
        reply.client_addr is Some,
    ensures
        ({
            let next = core_step(core, CoreMessage::BroadcastReply(hid, reply));
            &&& next.devices == core.devices.insert(
                hid@,
                Device { hid: hid, device_type: reply.device_type },
            )
            &&& next.outbox == core.outbox.push(
                OutgoingView::CreateNewSession(
                    CreateNewSessionView {
                        hid: hid@,
                        addr: reply.client_addr.unwrap()@,
                        device_type: reply.device_type,
                    },
                ),
            )
            &&& next.stop_requested == core.stop_requested
        }),
{
}

/// A reply from a device that is already registered changes nothing: the device keeps what it
/// was registered with, and no second session is requested.
pub proof fn law_duplicate_reply_ignored(core: InnerCoreView, hid: String, reply: BroadcastReply)
    requires
        core.devices.dom().contains(hid@),
    ensures
        core_step(core, CoreMessage::BroadcastReply(hid, reply)) == core,
{
}

/// A reply that does not say where the device can be reached changes nothing.
pub proof fn law_reply_without_address_ignored(
    core: InnerCoreView,
    hid: String,
    reply: BroadcastReply,
)
    requires
        reply.client_addr is None,
    ensures
        core_step(core, CoreMessage::BroadcastReply(hid, reply)) == core,
{
}

/// Hits and messages the core does not know change nothing.
pub proof fn law_other_messages_inert(core: InnerCoreView, msg: CoreMessage)
    requires
        msg is UnknownMessage || msg is TargetHit,
    ensures
        core_step(core, msg) == core,
{
}

/// Every broadcast that the core hears, whatever address it announces, is of no interest to the
/// core: it stands for no known message and leaves the core as it was.
pub proof fn law_broadcasts_are_ignored(core: InnerCoreView, value: Msg)
    requires
        value.inner matches Some(Inner::Broadcast(_)),
    ensures
        core_message_of(value) is UnknownMessage,
        core_step(core, core_message_of(value)) == core,
{
}

/// A reply and a hit keep the sender's hardware id and what they carry.
pub proof fn law_replies_and_hits_keep_their_sender(value: Msg)
    requires
        value.inner is Some,
    ensures
        value.inner matches Some(Inner::BroadcastReply(r)) ==> core_message_of(value)
            == CoreMessage::BroadcastReply(value.hid, r),
        value.inner matches Some(Inner::TargetHit(h)) ==> core_message_of(value)
            == CoreMessage::TargetHit(value.hid, h.from_id),
{
}

/// Handling the same message twice does what handling it once does.
pub proof fn law_step_idempotent(core: InnerCoreView, msg: CoreMessage)
    ensures
        core_step(core_step(core, msg), msg) == core_step(core, msg),
{
}

/// No step forgets or changes a registered device, and no step takes back a queued message:
/// the old outbox is a prefix of the new one, which has at most one message more.
pub proof fn law_step_monotonic(core: InnerCoreView, msg: CoreMessage)
    ensures
        ({
            let next = core_step(core, msg);
            &&& forall|k: Seq<char>| #[trigger]
                core.devices.dom().contains(k) ==> next.devices.dom().contains(k)
                    && next.devices[k] == core.devices[k]
            &&& next.outbox.len() <= core.outbox.len() + 1
            &&& next.outbox.subrange(0, core.outbox.len() as int) == core.outbox
        }),
{
    let next = core_step(core, msg);
    assert(next.outbox.subrange(0, core.outbox.len() as int) =~= core.outbox);
}

/// A step asks the core to stop exactly when the message is a shutdown, and a request to stop
/// is never taken back.
pub proof fn law_stop_sticky(core: InnerCoreView, msg: CoreMessage)
    ensures
        core_step(core, msg).stop_requested <==> (core.stop_requested || msg is Shutdown),
{
}

/// A device that answers the broadcast is registered, and is reached where its answer came
/// from: the transport records the answer's sender `peer`, the core registers the device and
/// asks for a session with the address in the answer, and the session request, carried out by
/// the transport, routes the device to `peer`, whatever address it reported.
pub proof fn law_answer_registers_and_routes(
    core: InnerCoreView,
    observed: Map<Seq<char>, Endpoint>,
    routes: Map<Seq<char>, Endpoint>,
    hid: String,
    reply: BroadcastReply,
    peer: Endpoint,
)
    requires
        !core.devices.dom().contains(hid@),
        reply.client_addr is Some,
        client_addr_has_ip(reply.client_addr.unwrap()@),
    ensures
        ({
            let seen = observed.insert(hid@, peer);
            let next = core_step(core, CoreMessage::BroadcastReply(hid, reply));
            let request = next.outbox.last();
            &&& next.devices.dom().contains(hid@)
            &&& request matches OutgoingView::CreateNewSession(s) && s.hid == hid@ && routes.insert(
                s.hid,
                chosen_endpoint(seen, s.hid, client_endpoint(s.addr)),
            )[hid@] == peer
        }),
{
}

} // verus!
