use vstd::prelude::*;

use super::System;
use crate::engine::{InnerCore, InnerCoreView};
use crate::game::state::Device;
use crate::lg::BroadcastReply;
use crate::message::{
    CoreMessage, CreateNewSessionMsg, CreateNewSessionView, OutgoingView,
};

verus! {

/// Registers the devices that answer a broadcast.
pub struct BroadcastSystem {}

/// A reply from a device that is not registered yet, and that says where it can be reached,
/// registers the device and asks the transport for a session with it. Any other message, a
/// reply from a registered device and a reply without an address leave the core as it is.
pub open spec fn broadcast_effect(core: InnerCoreView, msg: CoreMessage) -> InnerCoreView {
    match msg {
        CoreMessage::BroadcastReply(hid, reply) => {
            if !core.devices.dom().contains(hid@) && reply.client_addr is Some {
                InnerCoreView {
                    devices: core.devices.insert(
                        hid@,
                        Device { hid: hid, device_type: reply.device_type },
                    ),
                    outbox: core.outbox.push(
                        OutgoingView::CreateNewSession(
                            CreateNewSessionView {
                                hid: hid@,
                                addr: reply.client_addr.unwrap()@,
                                device_type: reply.device_type,
                            },
                        ),
                    ),
                    ..core
                }
            } else {
                core
            }
        },
        _ => core,
    }
}

impl System<CoreMessage> for BroadcastSystem {
    open spec fn effect(&self, core: InnerCoreView, msg: CoreMessage) -> InnerCoreView {
        broadcast_effect(core, msg)
    }

    fn handle(&mut self, core: &mut InnerCore, msg: &CoreMessage) {
        match msg {
            CoreMessage::BroadcastReply(hid, reply) => {
                if !core.contains_device(hid) {
                    let _ = self.try_add_device(core, hid, reply);
                }
            },
            _ => {},
        }
    }
}

/// Why a reply did not register a device.
#[derive(Debug, PartialEq, Eq, Structural)]
pub enum AddDeviceError {
    /// The reply does not say where the device can be reached.
    NoClientAddr,
}

impl BroadcastSystem {
    /// Registers the device `hid` from its reply and queues a session request for it; fails,
    /// changing nothing, when the reply has no address.
    pub(crate) fn try_add_device(&self, core: &mut InnerCore, hid: &String, reply: &BroadcastReply) -> (r:
        Result<(), AddDeviceError>)
        ensures
            r is Ok <==> reply.client_addr is Some,
            r is Ok ==> final(core)@ == (InnerCoreView {
                devices: old(core)@.devices.insert(
                    hid@,
                    Device { hid: *hid, device_type: reply.device_type },
                ),
                outbox: old(core)@.outbox.push(
                    OutgoingView::CreateNewSession(
                        CreateNewSessionView {
                            hid: hid@,
                            addr: reply.client_addr.unwrap()@,
                            device_type: reply.device_type,
                        },
                    ),
                ),
                ..old(core)@
            }),
            r is Err ==> final(core)@ == old(core)@,
    {
        let client_addr = match &reply.client_addr {
            Some(a) => a.clone(),
            None => {
                return Err(AddDeviceError::NoClientAddr);
            },
        };
        let device = Device { hid: hid.clone(), device_type: reply.device_type };
        let msg = CreateNewSessionMsg {
            hid: hid.clone(),
            addr: client_addr,
            device_type: reply.device_type,
        };
        core.register(device, msg);
        Ok(())
    }
}

} // verus!
