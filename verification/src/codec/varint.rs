//! Base-128 varints, the integers of the wire format, written and read by prost.

use vstd::prelude::*;

verus! {

#[verifier::external_type_specification]
#[verifier::external_body]
pub struct ExProstDecodeError(prost::DecodeError);

/// The bytes of `v` in base 128, least significant group first; every byte but the last has
/// its high bit set.
pub open spec fn varint_bytes(v: nat) -> Seq<u8>
    decreases v,
{
    if v < 128 {
        seq![v as u8]
    } else {
        seq![(v % 128 + 128) as u8] + varint_bytes(v / 128)
    }
}

/// The number that a run of base-128 bytes stands for, least significant group first.
pub open spec fn le_value(s: Seq<u8>) -> nat
    decreases s.len(),
{
    if s.len() == 0 {
        0
    } else {
        (s[0] % 128) as nat + 128 * le_value(s.drop_first())
    }
}

/// The position of the first byte of `s` whose high bit is clear.
pub open spec fn stop_index(s: Seq<u8>) -> Option<nat>
    decreases s.len(),
{
    if s.len() == 0 {
        None
    } else if s[0] < 128 {
        Some(0)
    } else {
        match stop_index(s.drop_first()) {
            Some(i) => Some(i + 1),
            None => None,
        }
    }
}

/// Whether `s` starts with a varint that fits in 64 bits: at most ten bytes, and a tenth byte
/// of 0 or 1.
pub open spec fn varint_ok(s: Seq<u8>) -> bool {
    match stop_index(s) {
        Some(i) => i < 10 && (i == 9 ==> s[9] < 2),
        None => false,
    }
}

/// The number of bytes of the varint that starts `s`.
pub open spec fn varint_size(s: Seq<u8>) -> nat {
    stop_index(s).unwrap() + 1
}

/// The value of the varint that starts `s`.
pub open spec fn varint_value(s: Seq<u8>) -> nat {
    le_value(s.take(varint_size(s) as int))
}

/// Appends the varint of `value` to `buf` by prost's `encode_varint`: base-128 groups, least
/// significant first, the high bit set on every byte but the last.
#[verifier::external_body]
pub fn write_varint(value: u64, buf: &mut Vec<u8>)
    ensures
        final(buf)@ == old(buf)@ + varint_bytes(value as nat),
{
    prost::encoding::encode_varint(value, buf);
}

/// Reads the varint at the start of `buf` by prost's `decode_varint`: it succeeds exactly when
/// `buf` starts with a varint of at most ten bytes that fits in 64 bits, and then gives its
/// value and the bytes after it.
#[verifier::external_body]
pub fn read_varint(buf: &[u8]) -> (r: Result<(u64, &[u8]), prost::DecodeError>)
    ensures
        r is Ok <==> varint_ok(buf@),
        r matches Ok((v, rest)) ==> v as nat == varint_value(buf@) && rest@ == buf@.skip(
            varint_size(buf@) as int,
        ),
{
    let mut rest = buf;
    match prost::encoding::decode_varint(&mut rest) {
        Ok(v) => Ok((v, rest)),
        Err(e) => Err(e),
    }
}

pub open spec fn pow128(k: nat) -> nat
    decreases k,
{
    if k == 0 {
        1
    } else {
        128 * pow128((k - 1) as nat)
    }
}

proof fn lemma_stop_index_bound(s: Seq<u8>)
    ensures
        stop_index(s) matches Some(i) ==> i < s.len() && s[i as int] < 128 && forall|j: int|
            0 <= j < i ==> s[j] >= 128,
    decreases s.len(),
{
    if s.len() > 0 && s[0] >= 128 {
        lemma_stop_index_bound(s.drop_first());
        if let Some(i) = stop_index(s) {
            assert forall|j: int| 0 <= j < i implies s[j] >= 128 by {
                if j > 0 {
                    assert(s[j] == s.drop_first()[j - 1]);
                }
            }
        }
    }
}

/// A varint that starts a run of bytes takes between one byte and all of them.
pub proof fn lemma_varint_size(s: Seq<u8>)
    requires
        varint_ok(s),
    ensures
        1 <= varint_size(s) <= 10,
        varint_size(s) <= s.len(),
{
    lemma_stop_index_bound(s);
}

proof fn lemma_varint_bytes_shape(v: nat, rest: Seq<u8>)
    ensures
        stop_index(varint_bytes(v) + rest) == Some((varint_bytes(v).len() - 1) as nat),
        le_value(varint_bytes(v)) == v,
        varint_bytes(v).len() >= 1,
        varint_bytes(v).last() < 128,
    decreases v,
{
    if v >= 128 {
        lemma_varint_bytes_shape(v / 128, rest);
        let s = varint_bytes(v) + rest;
        assert(s.drop_first() =~= varint_bytes(v / 128) + rest);
        assert(varint_bytes(v).drop_first() =~= varint_bytes(v / 128));
        let b0 = varint_bytes(v)[0];
        assert(b0 == (v % 128 + 128) as u8);
        assert(b0 as nat == v % 128 + 128);
        assert(b0 % 128 == v % 128);
        assert(v == v % 128 + 128 * (v / 128));
        assert(le_value(varint_bytes(v)) == (b0 % 128) as nat + 128 * le_value(
            varint_bytes(v).drop_first(),
        ));
    } else {
        assert(varint_bytes(v)[0] as nat == v);
        assert(le_value(varint_bytes(v)) == (varint_bytes(v)[0] % 128) as nat + 128 * le_value(
            varint_bytes(v).drop_first(),
        ));
        assert((varint_bytes(v) + rest)[0] == v as u8);
        assert(varint_bytes(v).drop_first() =~= Seq::<u8>::empty());
    }
}

proof fn lemma_varint_bytes_len(v: nat, k: nat)
    requires
        k >= 1,
        v < pow128(k),
    ensures
        varint_bytes(v).len() <= k,
        varint_bytes(v).len() == k ==> v / pow128((k - 1) as nat) < 128 && varint_bytes(v).last()
            == v / pow128((k - 1) as nat),
    decreases k,
{
    if v >= 128 {
        assert(k >= 2) by {
            if k == 1 {
                assert(pow128(1) == 128 * pow128(0));
            }
        }
        assert(pow128(k) == 128 * pow128((k - 1) as nat));
        assert(v / 128 < pow128((k - 1) as nat)) by (nonlinear_arith)
            requires
                v < 128 * pow128((k - 1) as nat),
        ;
        lemma_varint_bytes_len(v / 128, (k - 1) as nat);
        if varint_bytes(v).len() == k {
            let k2 = (k - 2) as nat;
            assert(pow128((k - 1) as nat) == 128 * pow128(k2));
            assert(v / pow128((k - 1) as nat) == (v / 128) / pow128(k2)) by {
                vstd::arithmetic::div_mod::lemma_div_denominator(v as int, 128, pow128(k2) as int);
                lemma_pow128_pos(k2);
            }
        }
    } else {
        if k >= 2 {
            assert(varint_bytes(v).len() == 1);
        } else {
            assert(pow128(0) == 1);
        }
    }
}

proof fn lemma_pow128_pos(k: nat)
    ensures
        pow128(k) > 0,
    decreases k,
{
    if k > 0 {
        lemma_pow128_pos((k - 1) as nat);
    }
}

/// A varint written for a 64-bit value reads back as that value, and takes exactly the bytes
/// that were written, whatever follows them.
pub proof fn lemma_varint_roundtrip(v: u64, rest: Seq<u8>)
    ensures
        varint_ok(varint_bytes(v as nat) + rest),
        varint_size(varint_bytes(v as nat) + rest) == varint_bytes(v as nat).len(),
        varint_value(varint_bytes(v as nat) + rest) == v,
        (varint_bytes(v as nat) + rest).skip(varint_bytes(v as nat).len() as int) == rest,
{
    let b = varint_bytes(v as nat);
    let s = b + rest;
    lemma_varint_bytes_shape(v as nat, rest);
    assert(pow128(0) == 1);
    assert(pow128(1) == 0x80);
    assert(pow128(2) == 0x4000);
    assert(pow128(3) == 0x20_0000);
    assert(pow128(4) == 0x1000_0000);
    assert(pow128(5) == 0x8_0000_0000);
    assert(pow128(6) == 0x400_0000_0000);
    assert(pow128(7) == 0x2_0000_0000_0000);
    assert(pow128(8) == 0x100_0000_0000_0000);
    assert(pow128(9) == 0x8000_0000_0000_0000);
    assert(pow128(10) == 0x40_0000_0000_0000_0000nat);
    lemma_varint_bytes_len(v as nat, 10);
    assert(s.take(b.len() as int) =~= b);
    assert(s.skip(b.len() as int) =~= rest);
    if b.len() == 10 {
        assert(s[9] == b.last());
        assert((v as nat) / 0x8000_0000_0000_0000nat < 2);
    }
}

} // verus!
