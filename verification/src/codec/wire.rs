//! Field keys, length prefixes, and the skipping of fields that a message does not know.

use vstd::prelude::*;

use super::varint::{
    lemma_varint_roundtrip, lemma_varint_size, read_varint, varint_bytes, varint_ok, varint_size,
    varint_value, write_varint,
};
use super::WireError;

verus! {

/// The largest field tag.
pub const MAX_TAG: u32 = 0x1fff_ffff;

/// How many levels of nested groups and messages a decoder enters.
pub const RECURSION_LIMIT: u32 = 100;

pub const WIRE_VARINT: u8 = 0;

pub const WIRE_SIXTY_FOUR_BIT: u8 = 1;

pub const WIRE_LENGTH_DELIMITED: u8 = 2;

pub const WIRE_START_GROUP: u8 = 3;

pub const WIRE_END_GROUP: u8 = 4;

pub const WIRE_THIRTY_TWO_BIT: u8 = 5;

/// The bytes of the key of a field: its tag and its wire type in one varint.
pub open spec fn key_bytes(tag: nat, wire_type: nat) -> Seq<u8> {
    varint_bytes(tag * 8 + wire_type)
}

/// The key at the start of `s`, as (tag, wire type, bytes taken): a varint of at most 32 bits,
/// whose low three bits name one of the six wire types and whose other bits a tag of at least 1.
pub open spec fn spec_key(s: Seq<u8>) -> Option<(nat, nat, nat)> {
    if !varint_ok(s) {
        None
    } else {
        let k = varint_value(s);
        if k > 0xffff_ffff || k % 8 > 5 || k / 8 == 0 {
            None
        } else {
            Some((k / 8, k % 8, varint_size(s)))
        }
    }
}

/// A length prefix and the bytes it announces at the start of `s`: (payload length, bytes
/// taken by the prefix), when `s` holds the whole payload.
pub open spec fn spec_delimited(s: Seq<u8>) -> Option<(nat, nat)> {
    if !varint_ok(s) {
        None
    } else if varint_value(s) <= s.len() - varint_size(s) {
        Some((varint_value(s), varint_size(s)))
    } else {
        None
    }
}

/// The number of bytes that a field of wire type `wire_type` and tag `tag` takes at the start
/// of `s`, its key already read, when `depth` more levels of nesting may be entered.
pub open spec fn skip_len(wire_type: nat, tag: nat, s: Seq<u8>, depth: nat) -> Option<nat>
    decreases s.len(), 1nat,
{
    if depth == 0 {
        None
    } else if wire_type == 0 {
        if varint_ok(s) {
            Some(varint_size(s))
        } else {
            None
        }
    } else if wire_type == 1 {
        if 8 <= s.len() {
            Some(8)
        } else {
            None
        }
    } else if wire_type == 2 {
        match spec_delimited(s) {
            Some((len, n)) => Some(n + len),
            None => None,
        }
    } else if wire_type == 3 {
        group_len(tag, s, (depth - 1) as nat)
    } else if wire_type == 5 {
        if 4 <= s.len() {
            Some(4)
        } else {
            None
        }
    } else {
        None
    }
}

/// The number of bytes that the rest of a group with tag `tag` takes at the start of `s`, up to
/// and with the key that ends it; the fields inside may enter `depth` more levels.
pub open spec fn group_len(tag: nat, s: Seq<u8>, depth: nat) -> Option<nat>
    decreases s.len(), 0nat,
{
    match spec_key(s) {
        None => None,
        Some((t, w, n)) => {
            proof {
                lemma_varint_size(s);
            }
            if w == 4 {
                if t == tag {
                    Some(n)
                } else {
                    None
                }
            } else {
                match skip_len(w, t, s.skip(n as int), depth) {
                    None => None,
                    Some(m) => {
                        if n + m <= s.len() {
                            match group_len(tag, s.skip((n + m) as int), depth) {
                                Some(r) => Some(n + m + r),
                                None => None,
                            }
                        } else {
                            None
                        }
                    },
                }
            }
        },
    }
}

/// A key takes between one byte and all of the bytes it starts.
pub proof fn lemma_key_size(s: Seq<u8>)
    requires
        spec_key(s) is Some,
    ensures
        1 <= spec_key(s).unwrap().2 <= s.len(),
        spec_key(s).unwrap().1 <= 5,
        1 <= spec_key(s).unwrap().0 <= MAX_TAG,
{
    lemma_varint_size(s);
}

/// A skipped field never takes more bytes than there are.
pub proof fn lemma_skip_len_bound(wire_type: nat, tag: nat, s: Seq<u8>, depth: nat)
    ensures
        skip_len(wire_type, tag, s, depth) matches Some(m) ==> m <= s.len(),
    decreases s.len(), 1nat,
{
    if depth > 0 {
        if wire_type == 0 && varint_ok(s) {
            lemma_varint_size(s);
        } else if wire_type == 3 {
            lemma_group_len_bound(tag, s, (depth - 1) as nat);
        }
    }
}

/// The rest of a group never takes more bytes than there are.
pub proof fn lemma_group_len_bound(tag: nat, s: Seq<u8>, depth: nat)
    ensures
        group_len(tag, s, depth) matches Some(m) ==> 1 <= m <= s.len(),
    decreases s.len(), 0nat,
{
    if let Some((t, w, n)) = spec_key(s) {
        lemma_key_size(s);
        if w != 4 {
            if let Some(m) = skip_len(w, t, s.skip(n as int), depth) {
                if n + m <= s.len() {
                    lemma_group_len_bound(tag, s.skip((n + m) as int), depth);
                }
            }
        }
    }
}

/// Appends the key of a field with tag `tag` and wire type `wire_type`.
pub fn encode_key(tag: u32, wire_type: u8, buf: &mut Vec<u8>)
    requires
        1 <= tag <= MAX_TAG,
        wire_type <= 5,
    ensures
        final(buf)@ == old(buf)@ + key_bytes(tag as nat, wire_type as nat),
{
    let key: u64 = (tag as u64) * 8 + (wire_type as u64);
    write_varint(key, buf);
}

/// Reads the key at the start of `buf` by prost's `decode_key`: a varint of at most 32 bits,
/// whose low three bits name one of the six wire types and whose other bits a tag of at least
/// 1; it gives the tag, the wire type as its number, and the bytes after the key.
#[verifier::external_body]
fn read_key(buf: &[u8]) -> (r: Result<(u32, u8, &[u8]), prost::DecodeError>)
    ensures
        match spec_key(buf@) {
            Some((t, w, n)) => r matches Ok((tag, wt, rest)) && tag == t && wt == w && rest@
                == buf@.skip(n as int),
            None => r is Err,
        },
{
    let mut rest = buf;
    match prost::encoding::decode_key(&mut rest) {
        Ok((tag, prost::encoding::WireType::Varint)) => Ok((tag, 0, rest)),
        Ok((tag, prost::encoding::WireType::SixtyFourBit)) => Ok((tag, 1, rest)),
        Ok((tag, prost::encoding::WireType::LengthDelimited)) => Ok((tag, 2, rest)),
        Ok((tag, prost::encoding::WireType::StartGroup)) => Ok((tag, 3, rest)),
        Ok((tag, prost::encoding::WireType::EndGroup)) => Ok((tag, 4, rest)),
        Ok((tag, prost::encoding::WireType::ThirtyTwoBit)) => Ok((tag, 5, rest)),
        Err(e) => Err(e),
    }
}

/// Reads the key at the start of `buf`.
pub fn decode_key(buf: &[u8]) -> (r: Result<(u32, u8, &[u8]), WireError>)
    ensures
        match spec_key(buf@) {
            Some((t, w, n)) => r matches Ok((tag, wt, rest)) && tag == t && wt == w && rest@
                == buf@.skip(n as int),
            None => r is Err,
        },
{
    match read_key(buf) {
        Ok(k) => Ok(k),
        Err(_) => Err(WireError {}),
    }
}

/// Reads a length prefix and splits off the payload that it announces: (payload, rest).
pub fn decode_delimited(buf: &[u8]) -> (r: Result<(&[u8], &[u8]), WireError>)
    ensures
        match spec_delimited(buf@) {
            Some((len, n)) => r matches Ok((payload, rest)) && payload@ == buf@.subrange(
                n as int,
                (n + len) as int,
            ) && rest@ == buf@.skip((n + len) as int),
            None => r is Err,
        },
{
    match read_varint(buf) {
        Err(_) => Err(WireError {}),
        Ok((len, rest)) => {
            proof {
                lemma_varint_size(buf@);
            }
            if len > rest.len() as u64 {
                return Err(WireError {});
            }
            let (payload, after) = rest.split_at(len as usize);
            assert(payload@ =~= buf@.subrange(
                varint_size(buf@) as int,
                (varint_size(buf@) + len) as int,
            ));
            assert(after@ =~= buf@.skip((varint_size(buf@) + len) as int));
            Ok((payload, after))
        },
    }
}

/// Skips `n` bytes, when there are that many.
pub fn skip_bytes(buf: &[u8], n: usize) -> (r: Result<&[u8], WireError>)
    ensures
        n <= buf@.len() ==> (r matches Ok(rest) && rest@ == buf@.skip(n as int)),
        n > buf@.len() ==> r is Err,
{
    if n > buf.len() {
        return Err(WireError {});
    }
    let (_, rest) = buf.split_at(n);
    assert(rest@ =~= buf@.skip(n as int));
    Ok(rest)
}

/// Skips a field of wire type `wire_type` and tag `tag` whose key was already read, when
/// `depth` more levels of nesting may be entered.
pub fn skip_field(wire_type: u8, tag: u32, buf: &[u8], depth: u32) -> (r: Result<
    &[u8],
    WireError,
>)
    ensures
        match skip_len(wire_type as nat, tag as nat, buf@, depth as nat) {
            Some(m) => r matches Ok(rest) && rest@ == buf@.skip(m as int),
            None => r is Err,
        },
    decreases buf@.len(), 1nat,
{
    if depth == 0 {
        return Err(WireError {});
    }
    if wire_type == WIRE_VARINT {
        match read_varint(buf) {
            Ok((_, rest)) => Ok(rest),
            Err(_) => Err(WireError {}),
        }
    } else if wire_type == WIRE_SIXTY_FOUR_BIT {
        skip_bytes(buf, 8)
    } else if wire_type == WIRE_LENGTH_DELIMITED {
        match decode_delimited(buf) {
            Ok((_, rest)) => Ok(rest),
            Err(e) => Err(e),
        }
    } else if wire_type == WIRE_START_GROUP {
        skip_group(tag, buf, depth - 1)
    } else if wire_type == WIRE_THIRTY_TWO_BIT {
        skip_bytes(buf, 4)
    } else {
        Err(WireError {})
    }
}

/// Skips the rest of a group with tag `tag`, up to and with the key that ends it.
fn skip_group(tag: u32, buf: &[u8], depth: u32) -> (r: Result<&[u8], WireError>)
    ensures
        match group_len(tag as nat, buf@, depth as nat) {
            Some(m) => r matches Ok(rest) && rest@ == buf@.skip(m as int),
            None => r is Err,
        },
    decreases buf@.len(), 0nat,
{
    let mut cur = buf;
    let ghost mut taken: nat = 0;
    loop
        invariant
            taken <= buf@.len(),
            cur@ == buf@.skip(taken as int),
            group_len(tag as nat, buf@, depth as nat) == (match group_len(
                tag as nat,
                cur@,
                depth as nat,
            ) {
                Some(m) => Some(taken + m),
                None => None,
            }),
        decreases cur@.len(),
    {
        let (t, w, after_key) = match decode_key(cur) {
            Ok(k) => k,
            Err(e) => {
                return Err(e);
            },
        };
        proof {
            lemma_key_size(cur@);
        }
        let ghost n = spec_key(cur@).unwrap().2;
        if w == WIRE_END_GROUP {
            if t == tag {
                assert(after_key@ =~= buf@.skip((taken + n) as int));
                return Ok(after_key);
            } else {
                return Err(WireError {});
            }
        }
        proof {
            lemma_skip_len_bound(w as nat, t as nat, after_key@, depth as nat);
        }
        let next = match skip_field(w, t, after_key, depth) {
            Ok(next) => next,
            Err(e) => {
                return Err(e);
            },
        };
        proof {
            let m = skip_len(w as nat, t as nat, after_key@, depth as nat).unwrap();
            assert(next@ =~= cur@.skip((n + m) as int));
            assert(next@ =~= buf@.skip((taken + n + m) as int));
            taken = taken + n + m;
        }
        cur = next;
    }
}

/// Appends a length prefix for a payload of `len` bytes.
pub fn encode_len(len: usize, buf: &mut Vec<u8>)
    ensures
        final(buf)@ == old(buf)@ + varint_bytes(len as nat),
{
    write_varint(len as u64, buf);
}

/// A key written for a tag and a wire type reads back as them, whatever follows.
pub proof fn lemma_key_roundtrip(tag: nat, wire_type: nat, rest: Seq<u8>)
    requires
        1 <= tag <= MAX_TAG,
        wire_type <= 5,
    ensures
        spec_key(key_bytes(tag, wire_type) + rest) == Some(
            (tag, wire_type, key_bytes(tag, wire_type).len()),
        ),
        (key_bytes(tag, wire_type) + rest).skip(key_bytes(tag, wire_type).len() as int) == rest,
{
    let k = (tag * 8 + wire_type) as u64;
    lemma_varint_roundtrip(k, rest);
    assert((tag * 8 + wire_type) / 8 == tag);
    assert((tag * 8 + wire_type) % 8 == wire_type);
}

/// A length prefix followed by its payload reads back as that payload, whatever follows.
pub proof fn lemma_delimited_roundtrip(payload: Seq<u8>, rest: Seq<u8>)
    requires
        payload.len() <= u64::MAX,
    ensures
        ({
            let s = varint_bytes(payload.len()) + payload + rest;
            let n = varint_bytes(payload.len()).len();
            &&& spec_delimited(s) == Some((payload.len(), n))
            &&& s.subrange(n as int, (n + payload.len()) as int) == payload
            &&& s.skip((n + payload.len()) as int) == rest
        }),
{
    let pre = varint_bytes(payload.len());
    let s = pre + payload + rest;
    lemma_varint_roundtrip(payload.len() as u64, payload + rest);
    assert(s =~= pre + (payload + rest));
    assert(s.subrange(pre.len() as int, (pre.len() + payload.len()) as int) =~= payload);
    assert(s.skip((pre.len() + payload.len()) as int) =~= rest);
}

/// One field at the start of some bytes: its tag and wire type, its number when it is a varint,
/// its payload when it is length-delimited, and the bytes it takes with its key.
pub struct WireField {
    pub tag: nat,
    pub wire_type: nat,
    pub value: nat,
    pub payload: Seq<u8>,
    pub size: nat,
}

/// The field at the start of `s`; a group may enter `depth` more levels of nesting. Fixed-size
/// fields and groups are only measured.
#[verifier::opaque]
pub open spec fn spec_field(s: Seq<u8>, depth: nat) -> Option<WireField> {
    match spec_key(s) {
        None => None,
        Some((tag, wire_type, n)) => {
            let r = s.skip(n as int);
            if wire_type == 0 {
                if varint_ok(r) {
                    Some(
                        WireField {
                            tag,
                            wire_type,
                            value: varint_value(r),
                            payload: Seq::empty(),
                            size: n + varint_size(r),
                        },
                    )
                } else {
                    None
                }
            } else if wire_type == 2 {
                match spec_delimited(r) {
                    Some((len, k)) => Some(
                        WireField {
                            tag,
                            wire_type,
                            value: 0,
                            payload: r.subrange(k as int, (k + len) as int),
                            size: n + k + len,
                        },
                    ),
                    None => None,
                }
            } else if wire_type == 1 {
                if 8 <= r.len() {
                    Some(WireField { tag, wire_type, value: 0, payload: Seq::empty(), size: n + 8 })
                } else {
                    None
                }
            } else if wire_type == 5 {
                if 4 <= r.len() {
                    Some(WireField { tag, wire_type, value: 0, payload: Seq::empty(), size: n + 4 })
                } else {
                    None
                }
            } else if wire_type == 3 && depth > 0 {
                match group_len(tag, r, (depth - 1) as nat) {
                    Some(g) => Some(
                        WireField { tag, wire_type, value: 0, payload: Seq::empty(), size: n + g },
                    ),
                    None => None,
                }
            } else {
                None
            }
        },
    }
}

/// A field takes between one byte and all of the bytes it starts; its tag and wire type are
/// valid ones.
pub proof fn lemma_field_size(s: Seq<u8>, depth: nat)
    requires
        spec_field(s, depth) is Some,
    ensures
        1 <= spec_field(s, depth).unwrap().size <= s.len(),
        1 <= spec_field(s, depth).unwrap().tag <= MAX_TAG,
        spec_field(s, depth).unwrap().wire_type <= 5,
{
    reveal(spec_field);
    lemma_key_size(s);
    let (tag, wire_type, n) = spec_key(s).unwrap();
    let r = s.skip(n as int);
    if wire_type == 0 {
        lemma_varint_size(r);
    } else if wire_type == 3 {
        lemma_group_len_bound(tag, r, (depth - 1) as nat);
    }
}

/// The field at the start of some bytes, as read: tag, wire type, number of a varint field,
/// payload of a length-delimited field.
pub struct Field<'a> {
    pub tag: u32,
    pub wire_type: u8,
    pub value: u64,
    pub payload: &'a [u8],
}

/// Reads the field at the start of `buf`.
pub fn read_field(buf: &[u8], depth: u32) -> (r: Result<(Field<'_>, &[u8]), WireError>)
    ensures
        match spec_field(buf@, depth as nat) {
            Some(f) => r matches Ok((g, rest)) && g.tag == f.tag && g.wire_type == f.wire_type
                && g.value == f.value && g.payload@ == f.payload && rest@ == buf@.skip(
                f.size as int,
            ),
            None => r is Err,
        },
{
    reveal(spec_field);
    let (tag, wire_type, r) = match decode_key(buf) {
        Ok(k) => k,
        Err(e) => {
            return Err(e);
        },
    };
    let ghost n = spec_key(buf@).unwrap().2;
    proof {
        lemma_key_size(buf@);
    }
    let empty: &[u8] = &[];
    assert(empty@ =~= Seq::<u8>::empty());
    if wire_type == WIRE_VARINT {
        match read_varint(r) {
            Ok((value, rest)) => {
                proof {
                    lemma_varint_size(r@);
                }
                assert(rest@ =~= buf@.skip((n + varint_size(r@)) as int));
                Ok((Field { tag, wire_type, value, payload: empty }, rest))
            },
            Err(_) => Err(WireError {}),
        }
    } else if wire_type == WIRE_LENGTH_DELIMITED {
        match decode_delimited(r) {
            Ok((payload, rest)) => {
                let ghost (len, k) = spec_delimited(r@).unwrap();
                assert(rest@ =~= buf@.skip((n + k + len) as int));
                Ok((Field { tag, wire_type, value: 0, payload }, rest))
            },
            Err(e) => Err(e),
        }
    } else if wire_type == WIRE_SIXTY_FOUR_BIT || wire_type == WIRE_THIRTY_TWO_BIT {
        let width: usize = if wire_type == WIRE_SIXTY_FOUR_BIT {
            8
        } else {
            4
        };
        match skip_bytes(r, width) {
            Ok(rest) => {
                assert(rest@ =~= buf@.skip((n + width) as int));
                Ok((Field { tag, wire_type, value: 0, payload: empty }, rest))
            },
            Err(e) => Err(e),
        }
    } else if wire_type == WIRE_START_GROUP && depth > 0 {
        match skip_field(wire_type, tag, r, depth) {
            Ok(rest) => {
                proof {
                    let g = group_len(tag as nat, r@, (depth - 1) as nat).unwrap();
                    lemma_group_len_bound(tag as nat, r@, (depth - 1) as nat);
                    assert(rest@ =~= buf@.skip((n + g) as int));
                }
                Ok((Field { tag, wire_type, value: 0, payload: empty }, rest))
            },
            Err(e) => Err(e),
        }
    } else {
        Err(WireError {})
    }
}

/// A varint field written with its key reads back as that field, whatever follows.
pub proof fn lemma_varint_field_read(tag: nat, v: u64, rest: Seq<u8>, depth: nat)
    requires
        1 <= tag <= MAX_TAG,
    ensures
        ({
            let f = key_bytes(tag, 0) + varint_bytes(v as nat);
            &&& spec_field(f + rest, depth) == Some(
                WireField { tag, wire_type: 0, value: v as nat, payload: Seq::empty(), size: f.len() },
            )
            &&& (f + rest).skip(f.len() as int) == rest
        }),
{
    reveal(spec_field);
    let k = key_bytes(tag, 0);
    let vb = varint_bytes(v as nat);
    let s = k + vb + rest;
    assert(s =~= k + (vb + rest));
    lemma_key_roundtrip(tag, 0, vb + rest);
    let r = s.skip(k.len() as int);
    assert(r == vb + rest);
    lemma_varint_roundtrip(v, rest);
    assert(s.skip((k + vb).len() as int) =~= rest);
}

/// A length-delimited field written with its key reads back as that field, whatever follows.
pub proof fn lemma_delimited_field_read(tag: nat, payload: Seq<u8>, rest: Seq<u8>, depth: nat)
    requires
        1 <= tag <= MAX_TAG,
        payload.len() <= u64::MAX,
    ensures
        ({
            let f = key_bytes(tag, 2) + varint_bytes(payload.len()) + payload;
            &&& spec_field(f + rest, depth) == Some(
                WireField { tag, wire_type: 2, value: 0, payload, size: f.len() },
            )
            &&& (f + rest).skip(f.len() as int) == rest
        }),
{
    reveal(spec_field);
    let k = key_bytes(tag, 2);
    let d = varint_bytes(payload.len()) + payload + rest;
    let s = k + varint_bytes(payload.len()) + payload + rest;
    assert(s =~= k + d);
    lemma_key_roundtrip(tag, 2, d);
    lemma_delimited_roundtrip(payload, rest);
    let f = k + varint_bytes(payload.len()) + payload;
    assert(s.skip(f.len() as int) =~= rest);
}

/// Appends bytes one by one.
pub fn append_bytes(buf: &mut Vec<u8>, bytes: &[u8])
    ensures
        final(buf)@ == old(buf)@ + bytes@,
{
    let n = bytes.len();
    let mut i: usize = 0;
    while i < n
        invariant
            n == bytes@.len(),
            i <= n,
            buf@ == old(buf)@ + bytes@.take(i as int),
        decreases n - i,
    {
        buf.push(bytes[i]);
        i = i + 1;
        assert(buf@ =~= old(buf)@ + bytes@.take(i as int));
    }
    assert(bytes@.take(n as int) =~= bytes@);
}

} // verus!
