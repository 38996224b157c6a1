use vstd::prelude::*;

use crate::lg::broadcast::{ReflectorAddr, ReflectorAddrView};
use crate::lg::broadcast_reply::{ClientAddr, ClientAddrView};
use crate::lg::msg::{Inner, InnerView};
use crate::lg::socket_addr::{Ip, IpView};
use crate::lg::{Broadcast, BroadcastView, DeviceType, Msg, MsgView, SocketAddr, SocketAddrView};
use crate::codec::messages::{msg_bytes, spec_decode_msg};
use crate::codec::WireError;
use crate::message::{MsgWithTarget, OutgoingMessage};
use crate::table::HidMap;

verus! {

/// An IP address: IPv4 or IPv6, as a number.
#[derive(PartialEq, Eq, Structural, Clone, Copy, Debug)]
pub enum IpAddress {
    V4(u32),
    V6(u128),
}

/// An IP address and a port.
#[derive(PartialEq, Eq, Structural, Clone, Copy, Debug)]
pub struct Endpoint {
    pub ip: IpAddress,
    pub port: u16,
}

/// The port on which reflectors and devices listen.
pub const REFLECTOR_PORT: u16 = 3333;

/// Where broadcasts go: every host of the local network, on the reflector port.
pub fn broadcast_endpoint() -> (r: Endpoint)
    ensures
        r == (Endpoint { ip: IpAddress::V4(0xffff_ffff), port: REFLECTOR_PORT }),
{
    Endpoint { ip: IpAddress::V4(0xffff_ffff), port: REFLECTOR_PORT }
}

/// Whether a device's reported address names an IP address.
pub open spec fn client_addr_has_ip(a: ClientAddrView) -> bool {
    match a {
        ClientAddrView::SocketAddr(sa) => sa.ip is Some,
    }
}

/// The endpoint a device reported: its IPv4 address and the low 16 bits of its port; an IPv6
/// address is not supported yet and stands for the unspecified IPv6 address.
pub open spec fn client_endpoint(a: ClientAddrView) -> Endpoint
    recommends
        client_addr_has_ip(a),
{
    match a {
        ClientAddrView::SocketAddr(sa) => match sa.ip {
            Some(IpView::V4(bits)) => Endpoint { ip: IpAddress::V4(bits), port: sa.port as u16 },
            _ => Endpoint { ip: IpAddress::V6(0), port: sa.port as u16 },
        },
    }
}

/// Whether a device's reported address names an IP address.
pub fn has_ip(addr: &ClientAddr) -> (r: bool)
    ensures
        r == client_addr_has_ip(addr@),
{
    match addr {
        ClientAddr::SocketAddr(a) => a.ip.is_some(),
    }
}

/// A datagram to send: where to, and its bytes.
pub struct Frame(pub Endpoint, pub Vec<u8>);

/// The endpoint that a device reported.
pub fn resolve_client_addr(addr: &ClientAddr) -> (r: Endpoint)
    requires
        client_addr_has_ip(addr@),
    ensures
        r == client_endpoint(addr@),
{
    match addr {
        ClientAddr::SocketAddr(socket_addr) => match &socket_addr.ip {
            Some(Ip::V4(ip)) => Endpoint { ip: IpAddress::V4(*ip), port: socket_addr.port as u16 },
            _ => Endpoint { ip: IpAddress::V6(0), port: socket_addr.port as u16 },
        },
    }
}

/// The endpoint the reflector sends to for a device: where its datagrams were seen to come from
/// when they were, since that is what gets through a NAT; else where the device said it is.
pub open spec fn chosen_endpoint(
    observed: Map<Seq<char>, Endpoint>,
    hid: Seq<char>,
    reported: Endpoint,
) -> Endpoint {
    if observed.dom().contains(hid) {
        observed[hid]
    } else {
        reported
    }
}

/// The transport's two tables: where each device's datagrams came from, and where the
/// reflector sends to each device.
pub struct AddressBook {
    transport_mapping: HidMap<Endpoint>,
    observed_transport_mapping: HidMap<Endpoint>,
}

impl AddressBook {
    /// Where the reflector sends to each device.
    pub closed spec fn routes(&self) -> Map<Seq<char>, Endpoint> {
        self.transport_mapping@
    }

    /// Where each device's datagrams were last seen to come from.
    pub closed spec fn observed(&self) -> Map<Seq<char>, Endpoint> {
        self.observed_transport_mapping@
    }

    /// Two empty tables.
    pub fn new() -> (r: Self)
        ensures
            r.routes() == Map::<Seq<char>, Endpoint>::empty(),
            r.observed() == Map::<Seq<char>, Endpoint>::empty(),
    {
        AddressBook { transport_mapping: HidMap::new(), observed_transport_mapping: HidMap::new() }
    }

    /// Records that a datagram from the device `hid` came from `peer`.
    pub fn observe(&mut self, hid: String, peer: Endpoint)
        ensures
            final(self).observed() == old(self).observed().insert(hid@, peer),
            final(self).routes() == old(self).routes(),
    {
        self.observed_transport_mapping.insert(hid, peer);
    }

    /// Sets where the reflector sends to the device `hid`, which reported `addr`: where its
    /// datagrams were seen to come from, if they were, else `addr`.
    pub fn add_address_entry(&mut self, hid: String, addr: ClientAddr)
        requires
            client_addr_has_ip(addr@),
        ensures
            final(self).routes() == old(self).routes().insert(
                hid@,
                chosen_endpoint(old(self).observed(), hid@, client_endpoint(addr@)),
            ),
            final(self).observed() == old(self).observed(),
    {
        let mut addr = resolve_client_addr(&addr);
        match self.observed_transport_mapping.get(&hid) {
            Some(observed_addr) => {
                if addr != *observed_addr {
                    addr = *observed_addr;
                }
            },
            None => {},
        }
        self.transport_mapping.insert(hid, addr);
    }

    /// Decodes a datagram that came from `peer` and records where its sender is; a datagram
    /// that does not decode changes nothing.
    pub fn handle_recv_buffer(&mut self, buf: &[u8], peer: Endpoint) -> (r: Result<Msg, WireError>)
        ensures
            match spec_decode_msg(buf@) {
                Some(v) => r matches Ok(m) && m@ == v && final(self).observed() == old(
                    self,
                ).observed().insert(v.hid, peer) && final(self).routes() == old(self).routes(),
                None => r is Err && final(self).observed() == old(self).observed()
                    && final(self).routes() == old(self).routes(),
            },
    {
        match Msg::decode(buf) {
            Ok(msg) => {
                self.observe(msg.hid.clone(), peer);
                Ok(msg)
            },
            Err(e) => Err(e),
        }
    }

    /// The datagram that carries `msg` to its target, when the target's endpoint is known.
    pub fn frame_for(&self, msg: &MsgWithTarget) -> (r: Option<Frame>)
        ensures
            r is Some <==> self.routes().dom().contains(msg.target_hid@),
            r matches Some(f) ==> f.0 == self.routes()[msg.target_hid@] && f.1@ == msg_bytes(
                msg.msg@,
            ),
    {
        let buf = msg.msg.encode_to_vec();
        match self.lookup(&msg.target_hid) {
            Some(addr) => Some(Frame(addr, buf)),
            None => None,
        }
    }

    /// Carries out what the core asked for: a session request sets where the device is
    /// reached, a message for a device becomes the datagram that carries it, if the device's
    /// endpoint is known.
    pub fn on_outgoing(&mut self, out: OutgoingMessage) -> (r: Option<Frame>)
        requires
            out matches OutgoingMessage::CreateNewSession(s) ==> client_addr_has_ip(s.addr@),
        ensures
            match out {
                OutgoingMessage::CreateNewSession(s) => r is None && final(self).routes() == old(
                    self,
                ).routes().insert(
                    s.hid@,
                    chosen_endpoint(old(self).observed(), s.hid@, client_endpoint(s.addr@)),
                ) && final(self).observed() == old(self).observed(),
                OutgoingMessage::MsgWithTarget(m) => final(self).routes() == old(self).routes()
                    && final(self).observed() == old(self).observed() && (r is Some <==> old(
                    self,
                ).routes().dom().contains(m.target_hid@)) && (r matches Some(f) ==> f.0 == old(
                    self,
                ).routes()[m.target_hid@] && f.1@ == msg_bytes(m.msg@)),
            },
    {
        match out {
            OutgoingMessage::CreateNewSession(s) => {
                self.add_address_entry(s.hid, s.addr);
                None
            },
            OutgoingMessage::MsgWithTarget(m) => self.frame_for(&m),
        }
    }

    /// Where the reflector sends to the device `hid`, if it knows.
    pub fn lookup(&self, hid: &String) -> (r: Option<Endpoint>)
        ensures
            r is Some <==> self.routes().dom().contains(hid@),
            r matches Some(e) ==> e == self.routes()[hid@],
    {
        match self.transport_mapping.get(hid) {
            Some(e) => Some(*e),
            None => None,
        }
    }
}

/// The announcement of the reflector `hid`, reachable at IPv4 address `ip` and port `port`.
pub open spec fn bc_message_view(hid: Seq<char>, ip: u32, port: u32) -> MsgView {
    MsgView {
        hid: hid,
        inner: Some(
            InnerView::Broadcast(
                BroadcastView {
                    device_type: DeviceType::Reflector.spec_value(),
                    reflector_addr: Some(
                        ReflectorAddrView::SocketAddr(
                            SocketAddrView { ip: Some(IpView::V4(ip)), port: port },
                        ),
                    ),
                },
            ),
        ),
    }
}

/// The datagram with which the reflector `hid` announces that it can be reached at IPv4 address
/// `ip` and port `port`: the announcement, to every host of the network.
pub fn broadcast_frame(hid: &str, ip: IpAddress, port: u32) -> (r: Frame)
    requires
        ip is V4,
    ensures
        r.0 == (Endpoint { ip: IpAddress::V4(0xffff_ffff), port: REFLECTOR_PORT }),
        r.1@ == msg_bytes(bc_message_view(hid@, ip->V4_0, port)),
        spec_decode_msg(r.1@) == Some(
            MsgView {
                hid: hid@,
                inner: Some(
                    InnerView::Broadcast(
                        BroadcastView {
                            device_type: 1,
                            reflector_addr: Some(
                                ReflectorAddrView::SocketAddr(
                                    SocketAddrView { ip: Some(IpView::V4(ip->V4_0)), port: port },
                                ),
                            ),
                        },
                    ),
                ),
            },
        ),
{
    let msg = get_bc_message(hid, ip, port);
    let bytes = msg.encode_to_vec();
    let n: usize = bytes.len();
    proof {
        assert(msg_bytes(msg@).len() == n as int);
        crate::codec::messages::law_msg_roundtrip(msg@);
    }
    Frame(broadcast_endpoint(), bytes)
}

/// The announcement names the reflector by its hardware id, says that it is a reflector, and
/// gives the address and the port it was given, whatever they are.
pub proof fn law_announcement_carries_its_address(hid: Seq<char>, ip: u32, port: u32)
    ensures
        bc_message_view(hid, ip, port).hid == hid,
        bc_message_view(hid, ip, port).inner == Some(
            InnerView::Broadcast(
                BroadcastView {
                    device_type: 1,
                    reflector_addr: Some(
                        ReflectorAddrView::SocketAddr(
                            SocketAddrView { ip: Some(IpView::V4(ip)), port: port },
                        ),
                    ),
                },
            ),
        ),
{
}

/// The endpoint to which a device is routed does not depend on what it reported once its
/// datagrams were seen: after a datagram from `hid` came from `peer`, whatever address `hid`
/// reports, the reflector sends to `peer`.
pub proof fn law_observed_address_wins(
    observed: Map<Seq<char>, Endpoint>,
    hid: Seq<char>,
    peer: Endpoint,
    reported: Endpoint,
)
    ensures
        chosen_endpoint(observed.insert(hid, peer), hid, reported) == peer,
{
}

/// A device that reported an IPv4 address and a port that fits in 16 bits is reached at that
/// very address and port.
pub proof fn law_reported_endpoint(ip: u32, port: u32)
    requires
        port < 0x1_0000,
    ensures
        client_endpoint(
            ClientAddrView::SocketAddr(SocketAddrView { ip: Some(IpView::V4(ip)), port: port }),
        ) == (Endpoint { ip: IpAddress::V4(ip), port: port as u16 }),
{
}

/// Where nothing was seen of a device, the reflector sends to where it said it is.
pub proof fn law_reported_address_used_when_unobserved(
    observed: Map<Seq<char>, Endpoint>,
    hid: Seq<char>,
    reported: Endpoint,
)
    requires
        !observed.dom().contains(hid),
    ensures
        chosen_endpoint(observed, hid, reported) == reported,
{
}

/// The message with which the reflector `hid` announces where it can be reached; only IPv4
/// addresses can be announced yet.
pub fn get_bc_message(hid: &str, ip: IpAddress, port: u32) -> (r: Msg)
    requires
        ip is V4,
    ensures
        r@ == bc_message_view(hid@, ip->V4_0, port),
        r.hid@ == hid@,
        r.inner matches Some(Inner::Broadcast(b)) && (b.device_type == 1 && (b.reflector_addr
            matches Some(ReflectorAddr::SocketAddr(a)) && (a.port == port && (a.ip matches Some(
            Ip::V4(x),
        ) && x == ip->V4_0)))),
{
    let bits = match ip {
        IpAddress::V4(bits) => bits,
        IpAddress::V6(_) => 0,
    };
    let socket_addr = SocketAddr { ip: Some(Ip::V4(bits)), port };
    let bc = Broadcast {
        device_type: DeviceType::Reflector.value(),
        reflector_addr: Some(ReflectorAddr::SocketAddr(socket_addr)),
    };
    Msg { hid: hid.to_owned(), inner: Some(Inner::Broadcast(bc)) }
}

} // verus!
