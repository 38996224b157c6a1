//! The wire form of the protocol messages.
//!
//! Field numbers: `SocketAddr { oneof ip { uint32 v4 = 1; bytes v6 = 2; } uint32 port = 3; }`,
//! `Broadcast { DeviceType device_type = 1; oneof reflector_addr { SocketAddr socket_addr = 2; } }`,
//! `BroadcastReply { DeviceType device_type = 1; oneof client_addr { SocketAddr socket_addr = 2; } }`,
//! `TargetHit { int32 from_id = 1; }`,
//! `Msg { string hid = 1; oneof inner { Broadcast broadcast = 2; BroadcastReply broadcast_reply = 3;
//! TargetHit target_hit = 4; } }`. Fields are written in the order of their numbers; a field that
//! holds its default value is not written, unless it is a member of a oneof.

use vstd::prelude::*;
use vstd::utf8::{decode_utf8, encode_utf8, valid_utf8};

use super::varint::{varint_bytes, write_varint};
use super::wire::{
    append_bytes, encode_key, encode_len, key_bytes, lemma_delimited_field_read,
    lemma_field_size, lemma_varint_field_read, read_field, spec_field, Field, RECURSION_LIMIT,
    WIRE_LENGTH_DELIMITED, WIRE_VARINT,
};
use super::WireError;
use crate::lg::broadcast::{ReflectorAddr, ReflectorAddrView};
use crate::lg::broadcast_reply::{ClientAddr, ClientAddrView};
use crate::lg::msg::{Inner, InnerView};
use crate::lg::socket_addr::{Ip, IpView};
use crate::lg::{
    Broadcast, BroadcastReply, BroadcastReplyView, BroadcastView, Msg, MsgView, SocketAddr,
    SocketAddrView, TargetHit,
};

verus! {

// ---------------------------------------------------------------------------------------------
// What encoding writes

/// A varint field: its key and its number.
pub open spec fn varint_field(tag: nat, v: nat) -> Seq<u8> {
    key_bytes(tag, 0) + varint_bytes(v)
}

/// A length-delimited field: its key, the length of the payload, and the payload.
pub open spec fn delimited_field(tag: nat, payload: Seq<u8>) -> Seq<u8> {
    key_bytes(tag, 2) + varint_bytes(payload.len()) + payload
}

/// An `int32` field, left out when it is 0; negative numbers go as their 64-bit sign extension.
pub open spec fn int32_field(tag: nat, v: i32) -> Seq<u8> {
    if v == 0 {
        Seq::empty()
    } else {
        varint_field(tag, (v as u64) as nat)
    }
}

pub open spec fn ip_bytes(ip: Option<IpView>) -> Seq<u8> {
    match ip {
        None => Seq::empty(),
        Some(IpView::V4(a)) => varint_field(1, a as nat),
        Some(IpView::V6(b)) => delimited_field(2, b),
    }
}

pub open spec fn socket_addr_bytes(a: SocketAddrView) -> Seq<u8> {
    ip_bytes(a.ip) + (if a.port == 0 {
        Seq::empty()
    } else {
        varint_field(3, a.port as nat)
    })
}

pub open spec fn broadcast_bytes(b: BroadcastView) -> Seq<u8> {
    int32_field(1, b.device_type) + match b.reflector_addr {
        Some(ReflectorAddrView::SocketAddr(a)) => delimited_field(2, socket_addr_bytes(a)),
        None => Seq::empty(),
    }
}

pub open spec fn broadcast_reply_bytes(r: BroadcastReplyView) -> Seq<u8> {
    int32_field(1, r.device_type) + match r.client_addr {
        Some(ClientAddrView::SocketAddr(a)) => delimited_field(2, socket_addr_bytes(a)),
        None => Seq::empty(),
    }
}

pub open spec fn target_hit_bytes(from_id: i32) -> Seq<u8> {
    int32_field(1, from_id)
}

/// The bytes of a message.
pub open spec fn msg_bytes(m: MsgView) -> Seq<u8> {
    (if m.hid.len() == 0 {
        Seq::empty()
    } else {
        delimited_field(1, encode_utf8(m.hid))
    }) + match m.inner {
        None => Seq::empty(),
        Some(InnerView::Broadcast(b)) => delimited_field(2, broadcast_bytes(b)),
        Some(InnerView::BroadcastReply(r)) => delimited_field(3, broadcast_reply_bytes(r)),
        Some(InnerView::TargetHit(h)) => delimited_field(4, target_hit_bytes(h)),
    }
}

// ---------------------------------------------------------------------------------------------
// What decoding reads
//
// Decoding reads the fields one after the other and applies each to the value read so far: a
// field of a known number must have the wire type of that number, and sets the field (a
// message field in a oneof merges into the member that is set, or into a fresh one); a field
// of an unknown number is skipped, which needs one more level of nesting. A message field
// enters one level of nesting.

pub open spec fn default_socket_addr() -> SocketAddrView {
    SocketAddrView { ip: None, port: 0 }
}

pub open spec fn default_broadcast() -> BroadcastView {
    BroadcastView { device_type: 0, reflector_addr: None }
}

pub open spec fn default_broadcast_reply() -> BroadcastReplyView {
    BroadcastReplyView { device_type: 0, client_addr: None }
}

pub open spec fn default_msg() -> MsgView {
    MsgView { hid: Seq::empty(), inner: None }
}

pub open spec fn apply_socket_addr(
    tag: nat,
    wire_type: nat,
    value: nat,
    payload: Seq<u8>,
    a: SocketAddrView,
    depth: nat,
) -> Option<SocketAddrView> {
    if tag == 1 {
        if wire_type == 0 {
            Some(SocketAddrView { ip: Some(IpView::V4((value as u64) as u32)), ..a })
        } else {
            None
        }
    } else if tag == 2 {
        if wire_type == 2 {
            Some(SocketAddrView { ip: Some(IpView::V6(payload)), ..a })
        } else {
            None
        }
    } else if tag == 3 {
        if wire_type == 0 {
            Some(SocketAddrView { port: (value as u64) as u32, ..a })
        } else {
            None
        }
    } else if depth > 0 {
        Some(a)
    } else {
        None
    }
}

pub open spec fn merge_socket_addr(s: Seq<u8>, a: SocketAddrView, depth: nat) -> Option<
    SocketAddrView,
>
    decreases s.len(),
{
    if s.len() == 0 {
        Some(a)
    } else {
        match spec_field(s, depth) {
            None => None,
            Some(f) => {
                proof {
                    lemma_field_size(s, depth);
                }
                match apply_socket_addr(f.tag, f.wire_type, f.value, f.payload, a, depth) {
                    None => None,
                    Some(a2) => merge_socket_addr(s.skip(f.size as int), a2, depth),
                }
            },
        }
    }
}

pub open spec fn apply_broadcast(
    tag: nat,
    wire_type: nat,
    value: nat,
    payload: Seq<u8>,
    b: BroadcastView,
    depth: nat,
) -> Option<BroadcastView> {
    if tag == 1 {
        if wire_type == 0 {
            Some(BroadcastView { device_type: (value as u64) as i32, ..b })
        } else {
            None
        }
    } else if tag == 2 {
        if wire_type == 2 && depth > 0 {
            let init = match b.reflector_addr {
                Some(ReflectorAddrView::SocketAddr(a)) => a,
                None => default_socket_addr(),
            };
            match merge_socket_addr(payload, init, (depth - 1) as nat) {
                Some(a) => Some(
                    BroadcastView { reflector_addr: Some(ReflectorAddrView::SocketAddr(a)), ..b },
                ),
                None => None,
            }
        } else {
            None
        }
    } else if depth > 0 {
        Some(b)
    } else {
        None
    }
}

pub open spec fn merge_broadcast(s: Seq<u8>, b: BroadcastView, depth: nat) -> Option<BroadcastView>
    decreases s.len(),
{
    if s.len() == 0 {
        Some(b)
    } else {
        match spec_field(s, depth) {
            None => None,
            Some(f) => {
                proof {
                    lemma_field_size(s, depth);
                }
                match apply_broadcast(f.tag, f.wire_type, f.value, f.payload, b, depth) {
                    None => None,
                    Some(b2) => merge_broadcast(s.skip(f.size as int), b2, depth),
                }
            },
        }
    }
}

pub open spec fn apply_broadcast_reply(
    tag: nat,
    wire_type: nat,
    value: nat,
    payload: Seq<u8>,
    r: BroadcastReplyView,
    depth: nat,
) -> Option<BroadcastReplyView> {
    if tag == 1 {
        if wire_type == 0 {
            Some(BroadcastReplyView { device_type: (value as u64) as i32, ..r })
        } else {
            None
        }
    } else if tag == 2 {
        if wire_type == 2 && depth > 0 {
            let init = match r.client_addr {
                Some(ClientAddrView::SocketAddr(a)) => a,
                None => default_socket_addr(),
            };
            match merge_socket_addr(payload, init, (depth - 1) as nat) {
                Some(a) => Some(
                    BroadcastReplyView { client_addr: Some(ClientAddrView::SocketAddr(a)), ..r },
                ),
                None => None,
            }
        } else {
            None
        }
    } else if depth > 0 {
        Some(r)
    } else {
        None
    }
}

pub open spec fn merge_broadcast_reply(s: Seq<u8>, r: BroadcastReplyView, depth: nat) -> Option<
    BroadcastReplyView,
>
    decreases s.len(),
{
    if s.len() == 0 {
        Some(r)
    } else {
        match spec_field(s, depth) {
            None => None,
            Some(f) => {
                proof {
                    lemma_field_size(s, depth);
                }
                match apply_broadcast_reply(f.tag, f.wire_type, f.value, f.payload, r, depth) {
                    None => None,
                    Some(r2) => merge_broadcast_reply(s.skip(f.size as int), r2, depth),
                }
            },
        }
    }
}

pub open spec fn apply_target_hit(
    tag: nat,
    wire_type: nat,
    value: nat,
    from_id: i32,
    depth: nat,
) -> Option<i32> {
    if tag == 1 {
        if wire_type == 0 {
            Some((value as u64) as i32)
        } else {
            None
        }
    } else if depth > 0 {
        Some(from_id)
    } else {
        None
    }
}

pub open spec fn merge_target_hit(s: Seq<u8>, from_id: i32, depth: nat) -> Option<i32>
    decreases s.len(),
{
    if s.len() == 0 {
        Some(from_id)
    } else {
        match spec_field(s, depth) {
            None => None,
            Some(f) => {
                proof {
                    lemma_field_size(s, depth);
                }
                match apply_target_hit(f.tag, f.wire_type, f.value, from_id, depth) {
                    None => None,
                    Some(h) => merge_target_hit(s.skip(f.size as int), h, depth),
                }
            },
        }
    }
}

pub open spec fn apply_msg(
    tag: nat,
    wire_type: nat,
    value: nat,
    payload: Seq<u8>,
    m: MsgView,
    depth: nat,
) -> Option<MsgView> {
    if tag == 1 {
        if wire_type == 2 && valid_utf8(payload) {
            Some(MsgView { hid: decode_utf8(payload), ..m })
        } else {
            None
        }
    } else if tag == 2 {
        if wire_type == 2 && depth > 0 {
            let init = match m.inner {
                Some(InnerView::Broadcast(b)) => b,
                _ => default_broadcast(),
            };
            match merge_broadcast(payload, init, (depth - 1) as nat) {
                Some(b) => Some(MsgView { inner: Some(InnerView::Broadcast(b)), ..m }),
                None => None,
            }
        } else {
            None
        }
    } else if tag == 3 {
        if wire_type == 2 && depth > 0 {
            let init = match m.inner {
                Some(InnerView::BroadcastReply(r)) => r,
                _ => default_broadcast_reply(),
            };
            match merge_broadcast_reply(payload, init, (depth - 1) as nat) {
                Some(r) => Some(MsgView { inner: Some(InnerView::BroadcastReply(r)), ..m }),
                None => None,
            }
        } else {
            None
        }
    } else if tag == 4 {
        if wire_type == 2 && depth > 0 {
            let init = match m.inner {
                Some(InnerView::TargetHit(h)) => h,
                _ => 0,
            };
            match merge_target_hit(payload, init, (depth - 1) as nat) {
                Some(h) => Some(MsgView { inner: Some(InnerView::TargetHit(h)), ..m }),
                None => None,
            }
        } else {
            None
        }
    } else if depth > 0 {
        Some(m)
    } else {
        None
    }
}

pub open spec fn merge_msg(s: Seq<u8>, m: MsgView, depth: nat) -> Option<MsgView>
    decreases s.len(),
{
    if s.len() == 0 {
        Some(m)
    } else {
        match spec_field(s, depth) {
            None => None,
            Some(f) => {
                proof {
                    lemma_field_size(s, depth);
                }
                match apply_msg(f.tag, f.wire_type, f.value, f.payload, m, depth) {
                    None => None,
                    Some(m2) => merge_msg(s.skip(f.size as int), m2, depth),
                }
            },
        }
    }
}

/// The message that `s` holds, if it holds one.
pub open spec fn spec_decode_msg(s: Seq<u8>) -> Option<MsgView> {
    merge_msg(s, default_msg(), RECURSION_LIMIT as nat)
}

// ---------------------------------------------------------------------------------------------
// Encoding

fn encode_varint_field(tag: u32, v: u64, buf: &mut Vec<u8>)
    requires
        1 <= tag <= super::wire::MAX_TAG,
    ensures
        final(buf)@ == old(buf)@ + varint_field(tag as nat, v as nat),
{
    encode_key(tag, WIRE_VARINT, buf);
    write_varint(v, buf);
    assert(buf@ =~= old(buf)@ + varint_field(tag as nat, v as nat));
}

fn encode_int32_field(tag: u32, v: i32, buf: &mut Vec<u8>)
    requires
        1 <= tag <= super::wire::MAX_TAG,
    ensures
        final(buf)@ == old(buf)@ + int32_field(tag as nat, v),
{
    if v != 0 {
        encode_varint_field(tag, v as u64, buf);
    } else {
        assert(buf@ =~= old(buf)@ + int32_field(tag as nat, v));
    }
}

fn encode_delimited_field(tag: u32, payload: &[u8], buf: &mut Vec<u8>)
    requires
        1 <= tag <= super::wire::MAX_TAG,
    ensures
        final(buf)@ == old(buf)@ + delimited_field(tag as nat, payload@),
{
    encode_key(tag, WIRE_LENGTH_DELIMITED, buf);
    encode_len(payload.len(), buf);
    append_bytes(buf, payload);
    assert(buf@ =~= old(buf)@ + delimited_field(tag as nat, payload@));
}

fn encode_nested(tag: u32, payload: Vec<u8>, buf: &mut Vec<u8>)
    requires
        1 <= tag <= super::wire::MAX_TAG,
    ensures
        final(buf)@ == old(buf)@ + delimited_field(tag as nat, payload@),
{
    let mut payload = payload;
    let ghost p = payload@;
    encode_key(tag, WIRE_LENGTH_DELIMITED, buf);
    encode_len(payload.len(), buf);
    buf.append(&mut payload);
    assert(buf@ =~= old(buf)@ + delimited_field(tag as nat, p));
}

/// Appends the bytes of a socket address.
pub fn encode_socket_addr(a: &SocketAddr, buf: &mut Vec<u8>)
    ensures
        final(buf)@ == old(buf)@ + socket_addr_bytes(a@),
{
    let ghost start = buf@;
    match &a.ip {
        None => {},
        Some(Ip::V4(v4)) => encode_varint_field(1, *v4 as u64, buf),
        Some(Ip::V6(v6)) => encode_delimited_field(2, v6.as_slice(), buf),
    }
    assert(buf@ =~= start + ip_bytes(a@.ip));
    let ghost mid = buf@;
    if a.port != 0 {
        encode_varint_field(3, a.port as u64, buf);
    }
    assert(buf@ =~= start + socket_addr_bytes(a@));
}

fn socket_addr_to_vec(a: &SocketAddr) -> (r: Vec<u8>)
    ensures
        r@ == socket_addr_bytes(a@),
{
    let mut v: Vec<u8> = Vec::new();
    encode_socket_addr(a, &mut v);
    assert(v@ =~= socket_addr_bytes(a@));
    v
}

/// Appends the bytes of a broadcast.
pub fn encode_broadcast(b: &Broadcast, buf: &mut Vec<u8>)
    ensures
        final(buf)@ == old(buf)@ + broadcast_bytes(b@),
{
    let ghost start = buf@;
    encode_int32_field(1, b.device_type, buf);
    match &b.reflector_addr {
        Some(ReflectorAddr::SocketAddr(a)) => {
            let inner = socket_addr_to_vec(a);
            encode_nested(2, inner, buf);
        },
        None => {},
    }
    assert(buf@ =~= start + broadcast_bytes(b@));
}

/// Appends the bytes of a reply to a broadcast.
pub fn encode_broadcast_reply(r: &BroadcastReply, buf: &mut Vec<u8>)
    ensures
        final(buf)@ == old(buf)@ + broadcast_reply_bytes(r@),
{
    let ghost start = buf@;
    encode_int32_field(1, r.device_type, buf);
    match &r.client_addr {
        Some(ClientAddr::SocketAddr(a)) => {
            let inner = socket_addr_to_vec(a);
            encode_nested(2, inner, buf);
        },
        None => {},
    }
    assert(buf@ =~= start + broadcast_reply_bytes(r@));
}

impl Msg {
    /// Appends the bytes of this message to `buf`.
    pub fn encode(&self, buf: &mut Vec<u8>)
        ensures
            final(buf)@ == old(buf)@ + msg_bytes(self@),
    {
        let ghost start = buf@;
        if !self.hid.as_str().is_empty() {
            encode_delimited_field(1, self.hid.as_str().as_bytes(), buf);
        }
        let ghost mid = buf@;
        assert(mid =~= start + (if self@.hid.len() == 0 {
            Seq::<u8>::empty()
        } else {
            delimited_field(1, encode_utf8(self@.hid))
        }));
        match &self.inner {
            None => {},
            Some(Inner::Broadcast(b)) => {
                let mut inner: Vec<u8> = Vec::new();
                encode_broadcast(b, &mut inner);
                assert(inner@ =~= broadcast_bytes(b@));
                encode_nested(2, inner, buf);
            },
            Some(Inner::BroadcastReply(r)) => {
                let mut inner: Vec<u8> = Vec::new();
                encode_broadcast_reply(r, &mut inner);
                assert(inner@ =~= broadcast_reply_bytes(r@));
                encode_nested(3, inner, buf);
            },
            Some(Inner::TargetHit(h)) => {
                let mut inner: Vec<u8> = Vec::new();
                encode_int32_field(1, h.from_id, &mut inner);
                assert(inner@ =~= target_hit_bytes(h.from_id));
                encode_nested(4, inner, buf);
            },
        }
        assert(buf@ =~= start + msg_bytes(self@));
    }

    /// The bytes of this message.
    pub fn encode_to_vec(&self) -> (r: Vec<u8>)
        ensures
            r@ == msg_bytes(self@),
    {
        let mut v: Vec<u8> = Vec::new();
        self.encode(&mut v);
        assert(v@ =~= msg_bytes(self@));
        v
    }
}

// ---------------------------------------------------------------------------------------------
// Decoding

/// Reads bytes as UTF-8 text with std's `str::from_utf8`: it succeeds exactly on valid UTF-8, and
/// then gives the characters that the bytes encode.
#[verifier::external_body]
fn utf8_str(bytes: &[u8]) -> (r: Option<&str>)
    ensures
        r is Some <==> valid_utf8(bytes@),
        r matches Some(s) ==> s@ == decode_utf8(bytes@),
{
    match std::str::from_utf8(bytes) {
        Ok(s) => Some(s),
        Err(_) => None,
    }
}

fn apply_socket_addr_field(f: &Field, a: SocketAddr, depth: u32) -> (r: Result<
    SocketAddr,
    WireError,
>)
    ensures
        match apply_socket_addr(
            f.tag as nat,
            f.wire_type as nat,
            f.value as nat,
            f.payload@,
            a@,
            depth as nat,
        ) {
            Some(v) => r matches Ok(x) && x@ == v,
            None => r is Err,
        },
{
    if f.tag == 1 {
        if f.wire_type != WIRE_VARINT {
            return Err(WireError {});
        }
        Ok(SocketAddr { ip: Some(Ip::V4(#[verifier::truncate] (f.value as u32))), port: a.port })
    } else if f.tag == 2 {
        if f.wire_type != WIRE_LENGTH_DELIMITED {
            return Err(WireError {});
        }
        Ok(SocketAddr { ip: Some(Ip::V6(vstd::slice::slice_to_vec(f.payload))), port: a.port })
    } else if f.tag == 3 {
        if f.wire_type != WIRE_VARINT {
            return Err(WireError {});
        }
        Ok(SocketAddr { ip: a.ip, port: #[verifier::truncate] (f.value as u32) })
    } else if depth == 0 {
        Err(WireError {})
    } else {
        Ok(a)
    }
}

proof fn lemma_merge_socket_addr_step(s: Seq<u8>, a: SocketAddrView, depth: nat)
    requires
        s.len() > 0,
    ensures
        merge_socket_addr(s, a, depth) == match spec_field(s, depth) {
            None => None,
            Some(f) => match apply_socket_addr(f.tag, f.wire_type, f.value, f.payload, a, depth) {
                None => None,
                Some(a2) => merge_socket_addr(s.skip(f.size as int), a2, depth),
            },
        },
{
}

/// Decodes the fields of `buf` on top of the socket address `init`.
pub fn merge_socket_addr_from(buf: &[u8], init: SocketAddr, depth: u32) -> (r: Result<
    SocketAddr,
    WireError,
>)
    ensures
        match merge_socket_addr(buf@, init@, depth as nat) {
            Some(v) => r matches Ok(x) && x@ == v,
            None => r is Err,
        },
{
    let ghost init_view = init@;
    let mut cur = buf;
    let mut a = init;
    while cur.len() > 0
        invariant
            init_view == init@,
            merge_socket_addr(buf@, init_view, depth as nat) == merge_socket_addr(
                cur@,
                a@,
                depth as nat,
            ),
        decreases cur@.len(),
    {
        proof {
            lemma_merge_socket_addr_step(cur@, a@, depth as nat);
        }
        let (f, rest) = match read_field(cur, depth) {
            Ok(x) => x,
            Err(e) => {
                return Err(e);
            },
        };
        proof {
            lemma_field_size(cur@, depth as nat);
        }
        a = match apply_socket_addr_field(&f, a, depth) {
            Ok(x) => x,
            Err(e) => {
                return Err(e);
            },
        };
        cur = rest;
    }
    Ok(a)
}

fn apply_broadcast_field(f: &Field, b: Broadcast, depth: u32) -> (r: Result<Broadcast, WireError>)
    ensures
        match apply_broadcast(
            f.tag as nat,
            f.wire_type as nat,
            f.value as nat,
            f.payload@,
            b@,
            depth as nat,
        ) {
            Some(v) => r matches Ok(x) && x@ == v,
            None => r is Err,
        },
{
    if f.tag == 1 {
        if f.wire_type != WIRE_VARINT {
            return Err(WireError {});
        }
        Ok(
            Broadcast {
                device_type: #[verifier::truncate] (f.value as i32),
                reflector_addr: b.reflector_addr,
            },
        )
    } else if f.tag == 2 {
        if f.wire_type != WIRE_LENGTH_DELIMITED || depth == 0 {
            return Err(WireError {});
        }
        let Broadcast { device_type, reflector_addr } = b;
        let start = match reflector_addr {
            Some(ReflectorAddr::SocketAddr(a)) => a,
            None => SocketAddr { ip: None, port: 0 },
        };
        match merge_socket_addr_from(f.payload, start, depth - 1) {
            Ok(a) => Ok(Broadcast { device_type, reflector_addr: Some(ReflectorAddr::SocketAddr(a)) }),
            Err(e) => Err(e),
        }
    } else if depth == 0 {
        Err(WireError {})
    } else {
        Ok(b)
    }
}

proof fn lemma_merge_broadcast_step(s: Seq<u8>, b: BroadcastView, depth: nat)
    requires
        s.len() > 0,
    ensures
        merge_broadcast(s, b, depth) == match spec_field(s, depth) {
            None => None,
            Some(f) => match apply_broadcast(f.tag, f.wire_type, f.value, f.payload, b, depth) {
                None => None,
                Some(b2) => merge_broadcast(s.skip(f.size as int), b2, depth),
            },
        },
{
}

/// Decodes the fields of `buf` on top of the broadcast `init`.
pub fn merge_broadcast_from(buf: &[u8], init: Broadcast, depth: u32) -> (r: Result<
    Broadcast,
    WireError,
>)
    ensures
        match merge_broadcast(buf@, init@, depth as nat) {
            Some(v) => r matches Ok(x) && x@ == v,
            None => r is Err,
        },
{
    let ghost init_view = init@;
    let mut cur = buf;
    let mut b = init;
    while cur.len() > 0
        invariant
            init_view == init@,
            merge_broadcast(buf@, init_view, depth as nat) == merge_broadcast(
                cur@,
                b@,
                depth as nat,
            ),
        decreases cur@.len(),
    {
        proof {
            lemma_merge_broadcast_step(cur@, b@, depth as nat);
        }
        let (f, rest) = match read_field(cur, depth) {
            Ok(x) => x,
            Err(e) => {
                return Err(e);
            },
        };
        proof {
            lemma_field_size(cur@, depth as nat);
        }
        b = match apply_broadcast_field(&f, b, depth) {
            Ok(x) => x,
            Err(e) => {
                return Err(e);
            },
        };
        cur = rest;
    }
    Ok(b)
}

fn apply_broadcast_reply_field(f: &Field, b: BroadcastReply, depth: u32) -> (r: Result<
    BroadcastReply,
    WireError,
>)
    ensures
        match apply_broadcast_reply(
            f.tag as nat,
            f.wire_type as nat,
            f.value as nat,
            f.payload@,
            b@,
            depth as nat,
        ) {
            Some(v) => r matches Ok(x) && x@ == v,
            None => r is Err,
        },
{
    if f.tag == 1 {
        if f.wire_type != WIRE_VARINT {
            return Err(WireError {});
        }
        Ok(
            BroadcastReply {
                device_type: #[verifier::truncate] (f.value as i32),
                client_addr: b.client_addr,
            },
        )
    } else if f.tag == 2 {
        if f.wire_type != WIRE_LENGTH_DELIMITED || depth == 0 {
            return Err(WireError {});
        }
        let BroadcastReply { device_type, client_addr } = b;
        let start = match client_addr {
            Some(ClientAddr::SocketAddr(a)) => a,
            None => SocketAddr { ip: None, port: 0 },
        };
        match merge_socket_addr_from(f.payload, start, depth - 1) {
            Ok(a) => Ok(BroadcastReply { device_type, client_addr: Some(ClientAddr::SocketAddr(a)) }),
            Err(e) => Err(e),
        }
    } else if depth == 0 {
        Err(WireError {})
    } else {
        Ok(b)
    }
}

proof fn lemma_merge_broadcast_reply_step(s: Seq<u8>, b: BroadcastReplyView, depth: nat)
    requires
        s.len() > 0,
    ensures
        merge_broadcast_reply(s, b, depth) == match spec_field(s, depth) {
            None => None,
            Some(f) => match apply_broadcast_reply(
                f.tag,
                f.wire_type,
                f.value,
                f.payload,
                b,
                depth,
            ) {
                None => None,
                Some(b2) => merge_broadcast_reply(s.skip(f.size as int), b2, depth),
            },
        },
{
}

/// Decodes the fields of `buf` on top of the reply `init`.
pub fn merge_broadcast_reply_from(buf: &[u8], init: BroadcastReply, depth: u32) -> (r: Result<
    BroadcastReply,
    WireError,
>)
    ensures
        match merge_broadcast_reply(buf@, init@, depth as nat) {
            Some(v) => r matches Ok(x) && x@ == v,
            None => r is Err,
        },
{
    let ghost init_view = init@;
    let mut cur = buf;
    let mut b = init;
    while cur.len() > 0
        invariant
            init_view == init@,
            merge_broadcast_reply(buf@, init_view, depth as nat) == merge_broadcast_reply(
                cur@,
                b@,
                depth as nat,
            ),
        decreases cur@.len(),
    {
        proof {
            lemma_merge_broadcast_reply_step(cur@, b@, depth as nat);
        }
        let (f, rest) = match read_field(cur, depth) {
            Ok(x) => x,
            Err(e) => {
                return Err(e);
            },
        };
        proof {
            lemma_field_size(cur@, depth as nat);
        }
        b = match apply_broadcast_reply_field(&f, b, depth) {
            Ok(x) => x,
            Err(e) => {
                return Err(e);
            },
        };
        cur = rest;
    }
    Ok(b)
}

proof fn lemma_merge_target_hit_step(s: Seq<u8>, h: i32, depth: nat)
    requires
        s.len() > 0,
    ensures
        merge_target_hit(s, h, depth) == match spec_field(s, depth) {
            None => None,
            Some(f) => match apply_target_hit(f.tag, f.wire_type, f.value, h, depth) {
                None => None,
                Some(h2) => merge_target_hit(s.skip(f.size as int), h2, depth),
            },
        },
{
}

/// Decodes the fields of `buf` on top of the hit report of `from_id`.
pub fn merge_target_hit_from(buf: &[u8], from_id: i32, depth: u32) -> (r: Result<i32, WireError>)
    ensures
        match merge_target_hit(buf@, from_id, depth as nat) {
            Some(v) => r == Ok::<i32, WireError>(v),
            None => r is Err,
        },
{
    let mut cur = buf;
    let mut h = from_id;
    while cur.len() > 0
        invariant
            merge_target_hit(buf@, from_id, depth as nat) == merge_target_hit(cur@, h, depth as nat),
        decreases cur@.len(),
    {
        proof {
            lemma_merge_target_hit_step(cur@, h, depth as nat);
        }
        let (f, rest) = match read_field(cur, depth) {
            Ok(x) => x,
            Err(e) => {
                return Err(e);
            },
        };
        proof {
            lemma_field_size(cur@, depth as nat);
        }
        if f.tag == 1 {
            if f.wire_type != WIRE_VARINT {
                return Err(WireError {});
            }
            h = #[verifier::truncate] (f.value as i32);
        } else if depth == 0 {
            return Err(WireError {});
        }
        cur = rest;
    }
    Ok(h)
}

fn apply_msg_field(f: &Field, m: Msg, depth: u32) -> (r: Result<Msg, WireError>)
    ensures
        match apply_msg(f.tag as nat, f.wire_type as nat, f.value as nat, f.payload@, m@, depth as nat) {
            Some(v) => r matches Ok(x) && x@ == v,
            None => r is Err,
        },
{
    if f.tag == 1 {
        if f.wire_type != WIRE_LENGTH_DELIMITED {
            return Err(WireError {});
        }
        match utf8_str(f.payload) {
            Some(text) => Ok(Msg { hid: text.to_owned(), inner: m.inner }),
            None => Err(WireError {}),
        }
    } else if f.tag == 2 || f.tag == 3 || f.tag == 4 {
        if f.wire_type != WIRE_LENGTH_DELIMITED || depth == 0 {
            return Err(WireError {});
        }
        let Msg { hid, inner } = m;
        if f.tag == 2 {
            let start = match inner {
                Some(Inner::Broadcast(b)) => b,
                _ => Broadcast { device_type: 0, reflector_addr: None },
            };
            match merge_broadcast_from(f.payload, start, depth - 1) {
                Ok(b) => Ok(Msg { hid, inner: Some(Inner::Broadcast(b)) }),
                Err(e) => Err(e),
            }
        } else if f.tag == 3 {
            let start = match inner {
                Some(Inner::BroadcastReply(r)) => r,
                _ => BroadcastReply { device_type: 0, client_addr: None },
            };
            match merge_broadcast_reply_from(f.payload, start, depth - 1) {
                Ok(r) => Ok(Msg { hid, inner: Some(Inner::BroadcastReply(r)) }),
                Err(e) => Err(e),
            }
        } else {
            let start = match inner {
                Some(Inner::TargetHit(h)) => h.from_id,
                _ => 0,
            };
            match merge_target_hit_from(f.payload, start, depth - 1) {
                Ok(h) => Ok(Msg { hid, inner: Some(Inner::TargetHit(TargetHit { from_id: h })) }),
                Err(e) => Err(e),
            }
        }
    } else if depth == 0 {
        Err(WireError {})
    } else {
        Ok(m)
    }
}

proof fn lemma_merge_msg_step(s: Seq<u8>, m: MsgView, depth: nat)
    requires
        s.len() > 0,
    ensures
        merge_msg(s, m, depth) == match spec_field(s, depth) {
            None => None,
            Some(f) => match apply_msg(f.tag, f.wire_type, f.value, f.payload, m, depth) {
                None => None,
                Some(m2) => merge_msg(s.skip(f.size as int), m2, depth),
            },
        },
{
}

/// Decodes the fields of `buf` on top of the message `init`.
pub fn merge_msg_from(buf: &[u8], init: Msg, depth: u32) -> (r: Result<Msg, WireError>)
    ensures
        match merge_msg(buf@, init@, depth as nat) {
            Some(v) => r matches Ok(x) && x@ == v,
            None => r is Err,
        },
{
    let ghost init_view = init@;
    let mut cur = buf;
    let mut m = init;
    while cur.len() > 0
        invariant
            init_view == init@,
            merge_msg(buf@, init_view, depth as nat) == merge_msg(cur@, m@, depth as nat),
        decreases cur@.len(),
    {
        proof {
            lemma_merge_msg_step(cur@, m@, depth as nat);
        }
        let (f, rest) = match read_field(cur, depth) {
            Ok(x) => x,
            Err(e) => {
                return Err(e);
            },
        };
        proof {
            lemma_field_size(cur@, depth as nat);
        }
        m = match apply_msg_field(&f, m, depth) {
            Ok(x) => x,
            Err(e) => {
                return Err(e);
            },
        };
        cur = rest;
    }
    Ok(m)
}

impl Msg {
    /// Decodes a message from all of `buf`.
    pub fn decode(buf: &[u8]) -> (r: Result<Msg, WireError>)
        ensures
            match spec_decode_msg(buf@) {
                Some(v) => r matches Ok(x) && x@ == v,
                None => r is Err,
            },
    {
        let empty = String::new();
        let init = Msg { hid: empty, inner: None };
        assert(init@ == default_msg());
        merge_msg_from(buf, init, RECURSION_LIMIT)
    }
}

// ---------------------------------------------------------------------------------------------
// Decoding what was encoded

proof fn lemma_i32_sign_extension(x: i32)
    ensures
        ((x as u64) as i32) == x,
{
    assert(((x as u64) as i32) == x) by (bit_vector);
}

proof fn lemma_socket_addr_roundtrip(a: SocketAddrView, depth: nat)
    requires
        socket_addr_bytes(a).len() <= u64::MAX,
    ensures
        merge_socket_addr(socket_addr_bytes(a), default_socket_addr(), depth) == Some(a),
{
    let p1 = ip_bytes(a.ip);
    let p2 = if a.port == 0 {
        Seq::<u8>::empty()
    } else {
        varint_field(3, a.port as nat)
    };
    let s = socket_addr_bytes(a);
    let a1 = SocketAddrView { ip: a.ip, port: 0 };
    // the port part, read on top of `a1`
    if a.port == 0 {
        assert(merge_socket_addr(p2, a1, depth) == Some(a1));
        assert(a1 == a);
    } else {
        lemma_varint_field_read(3, a.port as u64, Seq::empty(), depth);
        assert(p2 + Seq::<u8>::empty() =~= p2);
        lemma_merge_socket_addr_step(p2, a1, depth);
        assert(p2.skip(p2.len() as int) =~= Seq::<u8>::empty());
    }
    assert(merge_socket_addr(p2, a1, depth) == Some(a));
    // the address part
    match a.ip {
        None => {
            assert(s =~= p2);
        },
        Some(IpView::V4(x)) => {
            lemma_varint_field_read(1, x as u64, p2, depth);
            lemma_merge_socket_addr_step(s, default_socket_addr(), depth);
        },
        Some(IpView::V6(b)) => {
            lemma_delimited_field_read(2, b, p2, depth);
            lemma_merge_socket_addr_step(s, default_socket_addr(), depth);
        },
    }
}

proof fn lemma_int32_field_read(tag: nat, x: i32, rest: Seq<u8>, depth: nat)
    requires
        1 <= tag <= super::wire::MAX_TAG,
        x != 0,
    ensures
        ({
            let f = int32_field(tag, x);
            &&& spec_field(f + rest, depth) matches Some(g) && g.tag == tag && g.wire_type == 0
                && ((g.value as u64) as i32) == x && g.size == f.len()
            &&& (f + rest).skip(f.len() as int) == rest
        }),
{
    lemma_varint_field_read(tag, x as u64, rest, depth);
    lemma_i32_sign_extension(x);
}

proof fn lemma_broadcast_roundtrip(b: BroadcastView, depth: nat)
    requires
        depth > 0,
        broadcast_bytes(b).len() <= u64::MAX,
    ensures
        merge_broadcast(broadcast_bytes(b), default_broadcast(), depth) == Some(b),
{
    let p1 = int32_field(1, b.device_type);
    let p2 = match b.reflector_addr {
        Some(ReflectorAddrView::SocketAddr(a)) => delimited_field(2, socket_addr_bytes(a)),
        None => Seq::<u8>::empty(),
    };
    let s = broadcast_bytes(b);
    let b1 = BroadcastView { device_type: b.device_type, reflector_addr: None };
    match b.reflector_addr {
        None => {
            assert(b1 == b);
        },
        Some(ReflectorAddrView::SocketAddr(a)) => {
            let pa = socket_addr_bytes(a);
            lemma_delimited_field_read(2, pa, Seq::empty(), depth);
            assert(p2 + Seq::<u8>::empty() =~= p2);
            lemma_merge_broadcast_step(p2, b1, depth);
            lemma_socket_addr_roundtrip(a, (depth - 1) as nat);
            assert(p2.skip(p2.len() as int) =~= Seq::<u8>::empty());
        },
    }
    assert(merge_broadcast(p2, b1, depth) == Some(b));
    if b.device_type == 0 {
        assert(s =~= p2);
        assert(b1 == default_broadcast());
    } else {
        lemma_int32_field_read(1, b.device_type, p2, depth);
        lemma_merge_broadcast_step(s, default_broadcast(), depth);
    }
}

proof fn lemma_broadcast_reply_roundtrip(r: BroadcastReplyView, depth: nat)
    requires
        depth > 0,
        broadcast_reply_bytes(r).len() <= u64::MAX,
    ensures
        merge_broadcast_reply(broadcast_reply_bytes(r), default_broadcast_reply(), depth) == Some(r),
{
    let p1 = int32_field(1, r.device_type);
    let p2 = match r.client_addr {
        Some(ClientAddrView::SocketAddr(a)) => delimited_field(2, socket_addr_bytes(a)),
        None => Seq::<u8>::empty(),
    };
    let s = broadcast_reply_bytes(r);
    let r1 = BroadcastReplyView { device_type: r.device_type, client_addr: None };
    match r.client_addr {
        None => {
            assert(r1 == r);
        },
        Some(ClientAddrView::SocketAddr(a)) => {
            let pa = socket_addr_bytes(a);
            lemma_delimited_field_read(2, pa, Seq::empty(), depth);
            assert(p2 + Seq::<u8>::empty() =~= p2);
            lemma_merge_broadcast_reply_step(p2, r1, depth);
            lemma_socket_addr_roundtrip(a, (depth - 1) as nat);
            assert(p2.skip(p2.len() as int) =~= Seq::<u8>::empty());
        },
    }
    assert(merge_broadcast_reply(p2, r1, depth) == Some(r));
    if r.device_type == 0 {
        assert(s =~= p2);
        assert(r1 == default_broadcast_reply());
    } else {
        lemma_int32_field_read(1, r.device_type, p2, depth);
        lemma_merge_broadcast_reply_step(s, default_broadcast_reply(), depth);
    }
}

proof fn lemma_target_hit_roundtrip(h: i32, depth: nat)
    ensures
        merge_target_hit(target_hit_bytes(h), 0, depth) == Some(h),
{
    let s = target_hit_bytes(h);
    if h != 0 {
        lemma_int32_field_read(1, h, Seq::empty(), depth);
        assert(s + Seq::<u8>::empty() =~= s);
        lemma_merge_target_hit_step(s, 0, depth);
        assert(s.skip(s.len() as int) =~= Seq::<u8>::empty());
    }
}

/// Decoding the bytes of a message gives the message back, when its bytes fit in 64-bit
/// lengths.
pub proof fn law_msg_roundtrip(m: MsgView)
    requires
        msg_bytes(m).len() <= u64::MAX,
    ensures
        spec_decode_msg(msg_bytes(m)) == Some(m),
{
    let depth = RECURSION_LIMIT as nat;
    let p1 = if m.hid.len() == 0 {
        Seq::<u8>::empty()
    } else {
        delimited_field(1, encode_utf8(m.hid))
    };
    let p2 = match m.inner {
        None => Seq::<u8>::empty(),
        Some(InnerView::Broadcast(b)) => delimited_field(2, broadcast_bytes(b)),
        Some(InnerView::BroadcastReply(r)) => delimited_field(3, broadcast_reply_bytes(r)),
        Some(InnerView::TargetHit(h)) => delimited_field(4, target_hit_bytes(h)),
    };
    let s = msg_bytes(m);
    assert(s == p1 + p2);
    let m1 = MsgView { hid: m.hid, inner: None };
    match m.inner {
        None => {
            assert(m1 == m);
        },
        Some(InnerView::Broadcast(b)) => {
            let pb = broadcast_bytes(b);
            lemma_delimited_field_read(2, pb, Seq::empty(), depth);
            assert(p2 + Seq::<u8>::empty() =~= p2);
            lemma_merge_msg_step(p2, m1, depth);
            lemma_broadcast_roundtrip(b, (depth - 1) as nat);
            assert(p2.skip(p2.len() as int) =~= Seq::<u8>::empty());
        },
        Some(InnerView::BroadcastReply(r)) => {
            let pr = broadcast_reply_bytes(r);
            lemma_delimited_field_read(3, pr, Seq::empty(), depth);
            assert(p2 + Seq::<u8>::empty() =~= p2);
            lemma_merge_msg_step(p2, m1, depth);
            lemma_broadcast_reply_roundtrip(r, (depth - 1) as nat);
            assert(p2.skip(p2.len() as int) =~= Seq::<u8>::empty());
        },
        Some(InnerView::TargetHit(h)) => {
            let ph = target_hit_bytes(h);
            lemma_delimited_field_read(4, ph, Seq::empty(), depth);
            assert(p2 + Seq::<u8>::empty() =~= p2);
            lemma_merge_msg_step(p2, m1, depth);
            lemma_target_hit_roundtrip(h, (depth - 1) as nat);
            assert(p2.skip(p2.len() as int) =~= Seq::<u8>::empty());
        },
    }
    assert(merge_msg(p2, m1, depth) == Some(m));
    if m.hid.len() == 0 {
        assert(s =~= p2);
        assert(m.hid =~= Seq::<char>::empty());
        assert(m1 == default_msg());
    } else {
        let text = encode_utf8(m.hid);
        vstd::utf8::encode_utf8_valid_utf8(m.hid);
        vstd::utf8::encode_utf8_decode_utf8(m.hid);
        lemma_delimited_field_read(1, text, p2, depth);
        lemma_merge_msg_step(s, default_msg(), depth);
    }
}

} // verus!
