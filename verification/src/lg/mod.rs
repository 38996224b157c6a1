//! The message types that devices and the reflector exchange on the wire.

pub mod broadcast;
pub mod broadcast_reply;
pub mod msg;
pub mod socket_addr;

use vstd::prelude::*;

use self::broadcast::{ReflectorAddr, ReflectorAddrView};
use self::broadcast_reply::{ClientAddr, ClientAddrView};
use self::msg::{Inner, InnerView};
use self::socket_addr::{Ip, IpView};

verus! {

/// The kind of device that sends a message.
#[derive(PartialEq, Eq, Structural, Clone, Copy, Debug)]
pub enum DeviceType {
    Unknown,
    Reflector,
}

impl DeviceType {
    /// The wire value of a device type.
    pub open spec fn spec_value(self) -> i32 {
        match self {
            DeviceType::Unknown => 0,
            DeviceType::Reflector => 1,
        }
    }

    pub fn value(self) -> (r: i32)
        ensures
            r == self.spec_value(),
    {
        match self {
            DeviceType::Unknown => 0,
            DeviceType::Reflector => 1,
        }
    }
}

/// An IP address and a port.
#[derive(Debug)]
pub struct SocketAddr {
    pub ip: Option<Ip>,
    pub port: u32,
}

pub struct SocketAddrView {
    pub ip: Option<IpView>,
    pub port: u32,
}

impl View for SocketAddr {
    type V = SocketAddrView;

    open spec fn view(&self) -> SocketAddrView {
        SocketAddrView {
            ip: match self.ip {
                Some(ip) => Some(ip@),
                None => None,
            },
            port: self.port,
        }
    }
}

impl Clone for SocketAddr {
    fn clone(&self) -> (res: Self)
        ensures
            res@ == self@,
    {
        let ip = match &self.ip {
            Some(ip) => Some(ip.clone()),
            None => None,
        };
        SocketAddr { ip, port: self.port }
    }
}

/// The announcement a reflector sends to every device on the network.
#[derive(Debug)]
pub struct Broadcast {
    pub device_type: i32,
    pub reflector_addr: Option<ReflectorAddr>,
}

pub struct BroadcastView {
    pub device_type: i32,
    pub reflector_addr: Option<ReflectorAddrView>,
}

impl View for Broadcast {
    type V = BroadcastView;

    open spec fn view(&self) -> BroadcastView {
        BroadcastView {
            device_type: self.device_type,
            reflector_addr: match self.reflector_addr {
                Some(a) => Some(a@),
                None => None,
            },
        }
    }
}

/// A device's answer to a broadcast.
#[derive(Debug)]
pub struct BroadcastReply {
    pub device_type: i32,
    pub client_addr: Option<ClientAddr>,
}

pub struct BroadcastReplyView {
    pub device_type: i32,
    pub client_addr: Option<ClientAddrView>,
}

impl View for BroadcastReply {
    type V = BroadcastReplyView;

    open spec fn view(&self) -> BroadcastReplyView {
        BroadcastReplyView {
            device_type: self.device_type,
            client_addr: match self.client_addr {
                Some(a) => Some(a@),
                None => None,
            },
        }
    }
}

/// A device reports that it was hit by another device.
#[derive(Debug)]
pub struct TargetHit {
    pub from_id: i32,
}

/// The envelope of every message: the sender's hardware id and the payload.
#[derive(Debug)]
pub struct Msg {
    pub hid: String,
    pub inner: Option<Inner>,
}

pub struct MsgView {
    pub hid: Seq<char>,
    pub inner: Option<InnerView>,
}

impl View for Msg {
    type V = MsgView;

    open spec fn view(&self) -> MsgView {
        MsgView {
            hid: self.hid@,
            inner: match self.inner {
                Some(i) => Some(i@),
                None => None,
            },
        }
    }
}

} // verus!
