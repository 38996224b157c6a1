//! The messages that reach the core and the messages that the core sends out.

use vstd::prelude::*;

use crate::lg::broadcast_reply::{ClientAddr, ClientAddrView};
use crate::lg::msg::Inner;
use crate::lg::{BroadcastReply, Msg, MsgView};
use crate::systems::MessageTrait;

verus! {

/// A message as the core sees it.
#[derive(Debug)]
pub enum CoreMessage {
    BroadcastReply(String, BroadcastReply),
    Shutdown,
    UnknownMessage,
    TargetHit(String, i32),
}

impl MessageTrait for CoreMessage {}

/// The core message that a wire message with a payload stands for.
pub open spec fn core_message_of(value: Msg) -> CoreMessage
    recommends
        value.inner is Some,
{
    match value.inner.unwrap() {
        Inner::Broadcast(_) => CoreMessage::UnknownMessage,
        Inner::BroadcastReply(reply) => CoreMessage::BroadcastReply(value.hid, reply),
        Inner::TargetHit(hit) => CoreMessage::TargetHit(value.hid, hit.from_id),
    }
}

impl CoreMessage {
    /// Turns a wire message into a core message. A broadcast of another reflector is of no
    /// interest to the core; a reply and a hit keep the sender's hardware id.
    pub fn from(value: Msg) -> (r: CoreMessage)
        requires
            value.inner is Some,
        ensures
            r == core_message_of(value),
            value.inner matches Some(Inner::Broadcast(_)) ==> r is UnknownMessage,
            value.inner matches Some(Inner::BroadcastReply(b)) ==> r == CoreMessage::BroadcastReply(
                value.hid,
                b,
            ),
            value.inner matches Some(Inner::TargetHit(h)) ==> r == CoreMessage::TargetHit(
                value.hid,
                h.from_id,
            ),
    {
        let Msg { hid, inner } = value;
        match inner {
            Some(Inner::Broadcast(_)) => CoreMessage::UnknownMessage,
            Some(Inner::BroadcastReply(broadcast_reply)) => CoreMessage::BroadcastReply(
                hid,
                broadcast_reply,
            ),
            Some(Inner::TargetHit(hit_msg)) => CoreMessage::TargetHit(hid, hit_msg.from_id),
            None => CoreMessage::UnknownMessage,
        }
    }
}

/// A message that the core hands to the transport.
#[derive(Debug)]
pub enum OutgoingMessage {
    CreateNewSession(CreateNewSessionMsg),
    MsgWithTarget(MsgWithTarget),
}

impl MessageTrait for OutgoingMessage {}

/// Asks the transport to open a session with a newly discovered device.
#[derive(Debug)]
pub struct CreateNewSessionMsg {
    pub hid: String,
    pub addr: ClientAddr,
    pub device_type: i32,
}

/// A wire message for the device with hardware id `target_hid`.
#[derive(Debug)]
pub struct MsgWithTarget {
    pub target_hid: String,
    pub msg: Msg,
}

pub struct CreateNewSessionView {
    pub hid: Seq<char>,
    pub addr: ClientAddrView,
    pub device_type: i32,
}

pub struct MsgWithTargetView {
    pub target_hid: Seq<char>,
    pub msg: MsgView,
}

pub enum OutgoingView {
    CreateNewSession(CreateNewSessionView),
    MsgWithTarget(MsgWithTargetView),
}

impl View for CreateNewSessionMsg {
    type V = CreateNewSessionView;

    open spec fn view(&self) -> CreateNewSessionView {
        CreateNewSessionView { hid: self.hid@, addr: self.addr@, device_type: self.device_type }
    }
}

impl View for MsgWithTarget {
    type V = MsgWithTargetView;

    open spec fn view(&self) -> MsgWithTargetView {
        MsgWithTargetView { target_hid: self.target_hid@, msg: self.msg@ }
    }
}

impl View for OutgoingMessage {
    type V = OutgoingView;

    open spec fn view(&self) -> OutgoingView {
        match self {
            OutgoingMessage::CreateNewSession(m) => OutgoingView::CreateNewSession(m@),
            OutgoingMessage::MsgWithTarget(m) => OutgoingView::MsgWithTarget(m@),
        }
    }
}

} // verus!
