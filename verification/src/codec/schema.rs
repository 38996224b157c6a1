//! The field numbers of the protocol, stated key by key: which number and wire type each field
//! of each message goes under, and that decoding such bytes gives the message.

use vstd::prelude::*;
use vstd::utf8::encode_utf8;

use super::messages::{default_msg, merge_msg, msg_bytes, socket_addr_bytes, spec_decode_msg};
use super::varint::varint_bytes;
use super::wire::{key_bytes, lemma_varint_field_read, MAX_TAG, RECURSION_LIMIT};
use crate::lg::broadcast::ReflectorAddrView;
use crate::lg::broadcast_reply::ClientAddrView;
use crate::lg::msg::InnerView;
use crate::lg::socket_addr::IpView;
use crate::lg::{BroadcastReplyView, BroadcastView, MsgView, SocketAddrView};

verus! {

/// A socket address goes as `v4 = 1` (varint) or `v6 = 2` (bytes), then `port = 3` (varint),
/// each left out when it is absent or 0.
pub proof fn law_socket_addr_on_the_wire(a: SocketAddrView)
    ensures
        socket_addr_bytes(a) == (match a.ip {
            None => Seq::<u8>::empty(),
            Some(IpView::V4(x)) => key_bytes(1, 0) + varint_bytes(x as nat),
            Some(IpView::V6(b)) => key_bytes(2, 2) + varint_bytes(b.len()) + b,
        }) + (if a.port == 0 {
            Seq::<u8>::empty()
        } else {
            key_bytes(3, 0) + varint_bytes(a.port as nat)
        }),
{
    match a.ip {
        None => {},
        Some(IpView::V4(x)) => {},
        Some(IpView::V6(b)) => {
            assert(key_bytes(2, 2) + varint_bytes(b.len()) + b =~= key_bytes(2, 2) + varint_bytes(
                b.len(),
            ) + b);
        },
    }
}

/// A device's reply goes as `hid = 1` (bytes) and `broadcast_reply = 3` (bytes), whose payload
/// holds `device_type = 1` (varint, left out when 0) and the client address as `socket_addr = 2`
/// (bytes); decoding these bytes gives the reply back, its address included.
pub proof fn law_reply_on_the_wire(hid: Seq<char>, device_type: i32, addr: Option<SocketAddrView>)
    ensures
        ({
            let m = MsgView {
                hid: hid,
                inner: Some(
                    InnerView::BroadcastReply(
                        BroadcastReplyView {
                            device_type: device_type,
                            client_addr: match addr {
                                Some(a) => Some(ClientAddrView::SocketAddr(a)),
                                None => None,
                            },
                        },
                    ),
                ),
            };
            let text = encode_utf8(hid);
            let head = if hid.len() == 0 {
                Seq::<u8>::empty()
            } else {
                key_bytes(1, 2) + varint_bytes(text.len()) + text
            };
            let kind = if device_type == 0 {
                Seq::<u8>::empty()
            } else {
                key_bytes(1, 0) + varint_bytes((device_type as u64) as nat)
            };
            let place = match addr {
                None => Seq::<u8>::empty(),
                Some(a) => key_bytes(2, 2) + varint_bytes(socket_addr_bytes(a).len())
                    + socket_addr_bytes(a),
            };
            let body = kind + place;
            let bytes = head + key_bytes(3, 2) + varint_bytes(body.len()) + body;
            &&& msg_bytes(m) == bytes
            &&& bytes.len() <= u64::MAX ==> spec_decode_msg(bytes) == Some(m)
        }),
{
    let m = MsgView {
        hid: hid,
        inner: Some(
            InnerView::BroadcastReply(
                BroadcastReplyView {
                    device_type: device_type,
                    client_addr: match addr {
                        Some(a) => Some(ClientAddrView::SocketAddr(a)),
                        None => None,
                    },
                },
            ),
        ),
    };
    let text = encode_utf8(hid);
    let head = if hid.len() == 0 {
        Seq::<u8>::empty()
    } else {
        key_bytes(1, 2) + varint_bytes(text.len()) + text
    };
    let kind = if device_type == 0 {
        Seq::<u8>::empty()
    } else {
        key_bytes(1, 0) + varint_bytes((device_type as u64) as nat)
    };
    let place = match addr {
        None => Seq::<u8>::empty(),
        Some(a) => key_bytes(2, 2) + varint_bytes(socket_addr_bytes(a).len()) + socket_addr_bytes(
            a,
        ),
    };
    let body = kind + place;
    let bytes = head + key_bytes(3, 2) + varint_bytes(body.len()) + body;
    assert(msg_bytes(m) =~= bytes);
    if bytes.len() <= u64::MAX {
        super::messages::law_msg_roundtrip(m);
    }
}

/// The reflector's announcement goes as `hid = 1` (bytes) and `broadcast = 2` (bytes), whose
/// payload holds `device_type = 1` (varint, left out when 0) and the reflector's address as
/// `socket_addr = 2` (bytes); decoding these bytes gives the announcement back.
pub proof fn law_broadcast_on_the_wire(
    hid: Seq<char>,
    device_type: i32,
    addr: Option<SocketAddrView>,
)
    ensures
        ({
            let m = MsgView {
                hid: hid,
                inner: Some(
                    InnerView::Broadcast(
                        BroadcastView {
                            device_type: device_type,
                            reflector_addr: match addr {
                                Some(a) => Some(ReflectorAddrView::SocketAddr(a)),
                                None => None,
                            },
                        },
                    ),
                ),
            };
            let text = encode_utf8(hid);
            let head = if hid.len() == 0 {
                Seq::<u8>::empty()
            } else {
                key_bytes(1, 2) + varint_bytes(text.len()) + text
            };
            let kind = if device_type == 0 {
                Seq::<u8>::empty()
            } else {
                key_bytes(1, 0) + varint_bytes((device_type as u64) as nat)
            };
            let place = match addr {
                None => Seq::<u8>::empty(),
                Some(a) => key_bytes(2, 2) + varint_bytes(socket_addr_bytes(a).len())
                    + socket_addr_bytes(a),
            };
            let body = kind + place;
            let bytes = head + key_bytes(2, 2) + varint_bytes(body.len()) + body;
            &&& msg_bytes(m) == bytes
            &&& bytes.len() <= u64::MAX ==> spec_decode_msg(bytes) == Some(m)
        }),
{
    let m = MsgView {
        hid: hid,
        inner: Some(
            InnerView::Broadcast(
                BroadcastView {
                    device_type: device_type,
                    reflector_addr: match addr {
                        Some(a) => Some(ReflectorAddrView::SocketAddr(a)),
                        None => None,
                    },
                },
            ),
        ),
    };
    let text = encode_utf8(hid);
    let head = if hid.len() == 0 {
        Seq::<u8>::empty()
    } else {
        key_bytes(1, 2) + varint_bytes(text.len()) + text
    };
    let kind = if device_type == 0 {
        Seq::<u8>::empty()
    } else {
        key_bytes(1, 0) + varint_bytes((device_type as u64) as nat)
    };
    let place = match addr {
        None => Seq::<u8>::empty(),
        Some(a) => key_bytes(2, 2) + varint_bytes(socket_addr_bytes(a).len()) + socket_addr_bytes(
            a,
        ),
    };
    let body = kind + place;
    let bytes = head + key_bytes(2, 2) + varint_bytes(body.len()) + body;
    assert(msg_bytes(m) =~= bytes);
    if bytes.len() <= u64::MAX {
        super::messages::law_msg_roundtrip(m);
    }
}

/// A hit goes as `hid = 1` (bytes) and `target_hit = 4` (bytes), whose payload holds
/// `from_id = 1` (varint of its 64-bit sign extension, left out when 0); decoding these bytes
/// gives the hit back.
pub proof fn law_hit_on_the_wire(hid: Seq<char>, from_id: i32)
    ensures
        ({
            let m = MsgView { hid: hid, inner: Some(InnerView::TargetHit(from_id)) };
            let text = encode_utf8(hid);
            let head = if hid.len() == 0 {
                Seq::<u8>::empty()
            } else {
                key_bytes(1, 2) + varint_bytes(text.len()) + text
            };
            let body = if from_id == 0 {
                Seq::<u8>::empty()
            } else {
                key_bytes(1, 0) + varint_bytes((from_id as u64) as nat)
            };
            let bytes = head + key_bytes(4, 2) + varint_bytes(body.len()) + body;
            &&& msg_bytes(m) == bytes
            &&& bytes.len() <= u64::MAX ==> spec_decode_msg(bytes) == Some(m)
        }),
{
    let m = MsgView { hid: hid, inner: Some(InnerView::TargetHit(from_id)) };
    let text = encode_utf8(hid);
    let head = if hid.len() == 0 {
        Seq::<u8>::empty()
    } else {
        key_bytes(1, 2) + varint_bytes(text.len()) + text
    };
    let body = if from_id == 0 {
        Seq::<u8>::empty()
    } else {
        key_bytes(1, 0) + varint_bytes((from_id as u64) as nat)
    };
    let bytes = head + key_bytes(4, 2) + varint_bytes(body.len()) + body;
    assert(msg_bytes(m) =~= bytes);
    if bytes.len() <= u64::MAX {
        super::messages::law_msg_roundtrip(m);
    }
}

/// A field of a number that the envelope does not know (5 and up) is skipped: a message
/// preceded by such a field decodes to the message alone.
pub proof fn law_unknown_field_skipped(tag: nat, v: u64, m: MsgView)
    requires
        5 <= tag <= MAX_TAG,
        msg_bytes(m).len() <= u64::MAX,
    ensures
        spec_decode_msg(key_bytes(tag, 0) + varint_bytes(v as nat) + msg_bytes(m)) == Some(m),
{
    let depth = RECURSION_LIMIT as nat;
    let f = key_bytes(tag, 0) + varint_bytes(v as nat);
    let s = f + msg_bytes(m);
    lemma_varint_field_read(tag, v, msg_bytes(m), depth);
    super::messages::law_msg_roundtrip(m);
    assert(merge_msg(s, default_msg(), depth) == merge_msg(s.skip(f.len() as int), default_msg(), depth));
}

} // verus!
