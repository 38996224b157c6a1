//! The `Foo` test message: one `int32` field, `foole`, with tag 1.

use vstd::prelude::*;

use super::varint::{
    lemma_varint_roundtrip, lemma_varint_size, read_varint, varint_bytes, varint_ok, varint_size,
    varint_value, write_varint,
};
use super::wire::{
    decode_key, encode_key, key_bytes, lemma_key_roundtrip, lemma_key_size, lemma_skip_len_bound,
    skip_field, skip_len, spec_key, RECURSION_LIMIT, WIRE_VARINT,
};
use super::WireError;

verus! {

/// A message with one signed 32-bit number.
#[derive(Debug, PartialEq, Eq, Structural, Clone, Copy)]
pub struct Foo {
    pub foole: i32,
}

/// The bytes of a `Foo`: nothing for the default value 0, else the key of field 1 and the
/// value as a varint of its 64-bit sign extension.
pub open spec fn foo_bytes(foole: i32) -> Seq<u8> {
    if foole == 0 {
        Seq::empty()
    } else {
        key_bytes(1, 0) + varint_bytes((foole as u64) as nat)
    }
}

/// The `foole` that decoding the fields of `s` on top of `foole` gives: a field 1 of wire type
/// varint sets it to the low 32 bits of the varint, any other well-formed field is skipped,
/// and the last field 1 wins.
pub open spec fn merge_foo(s: Seq<u8>, foole: i32) -> Option<i32>
    decreases s.len(),
{
    if s.len() == 0 {
        Some(foole)
    } else {
        match spec_key(s) {
            None => None,
            Some((tag, wire_type, n)) => {
                proof {
                    lemma_key_size(s);
                }
                let r = s.skip(n as int);
                if tag == 1 {
                    if wire_type != 0 || !varint_ok(r) {
                        None
                    } else {
                        proof {
                            lemma_varint_size(r);
                        }
                        merge_foo(
                            r.skip(varint_size(r) as int),
                            (varint_value(r) as u64) as i32,
                        )
                    }
                } else {
                    match skip_len(wire_type, tag, r, RECURSION_LIMIT as nat) {
                        None => None,
                        Some(m) => {
                            proof {
                                lemma_skip_len_bound(wire_type, tag, r, RECURSION_LIMIT as nat);
                            }
                            merge_foo(r.skip(m as int), foole)
                        },
                    }
                }
            },
        }
    }
}

/// The `Foo` that `s` holds, if it holds one.
pub open spec fn spec_decode_foo(s: Seq<u8>) -> Option<Foo> {
    match merge_foo(s, 0) {
        Some(foole) => Some(Foo { foole }),
        None => None,
    }
}

impl Foo {
    /// Appends the bytes of this message to `buf`.
    pub fn encode(&self, buf: &mut Vec<u8>)
        ensures
            final(buf)@ == old(buf)@ + foo_bytes(self.foole),
    {
        if self.foole != 0 {
            encode_key(1, WIRE_VARINT, buf);
            write_varint(self.foole as u64, buf);
        }
        assert(buf@ =~= old(buf)@ + foo_bytes(self.foole));
    }

    /// Decodes a message from all of `buf`.
    pub fn decode(buf: &[u8]) -> (r: Result<Foo, WireError>)
        ensures
            match spec_decode_foo(buf@) {
                Some(f) => r == Ok::<Foo, WireError>(f),
                None => r is Err,
            },
    {
        let mut cur = buf;
        let mut foole: i32 = 0;
        while cur.len() > 0
            invariant
                merge_foo(buf@, 0) == merge_foo(cur@, foole),
            decreases cur@.len(),
        {
            let (tag, wire_type, rest) = match decode_key(cur) {
                Ok(k) => k,
                Err(e) => {
                    return Err(e);
                },
            };
            proof {
                lemma_key_size(cur@);
            }
            if tag == 1 {
                if wire_type != WIRE_VARINT {
                    return Err(WireError {});
                }
                match read_varint(rest) {
                    Ok((v, after)) => {
                        proof {
                            lemma_varint_size(rest@);
                        }
                        foole = v as i32;
                        cur = after;
                    },
                    Err(_) => {
                        return Err(WireError {});
                    },
                }
            } else {
                proof {
                    lemma_skip_len_bound(wire_type as nat, tag as nat, rest@, RECURSION_LIMIT as nat);
                }
                match skip_field(wire_type, tag, rest, RECURSION_LIMIT) {
                    Ok(after) => {
                        cur = after;
                    },
                    Err(e) => {
                        return Err(e);
                    },
                }
            }
        }
        Ok(Foo { foole })
    }
}

/// What is encoded decodes to the same message.
pub proof fn law_foo_roundtrip(foo: Foo)
    ensures
        spec_decode_foo(foo_bytes(foo.foole)) == Some(foo),
{
    let x = foo.foole;
    if x != 0 {
        let vb = varint_bytes((x as u64) as nat);
        let s = key_bytes(1, 0) + vb;
        lemma_key_roundtrip(1, 0, vb);
        lemma_varint_roundtrip(x as u64, Seq::<u8>::empty());
        assert(vb + Seq::<u8>::empty() =~= vb);
        let r = s.skip(key_bytes(1, 0).len() as int);
        assert(r == vb);
        assert(r.skip(varint_size(r) as int) =~= Seq::<u8>::empty());
        assert(((x as u64) as i32) == x) by (bit_vector);
        assert(merge_foo(Seq::<u8>::empty(), x) == Some(x));
    }
}

/// `foole` goes as field 1 (varint of its 64-bit sign extension), left out when 0, and those
/// bytes decode to it.
pub proof fn law_foo_on_the_wire(x: i32)
    ensures
        ({
            let bytes = if x == 0 {
                Seq::<u8>::empty()
            } else {
                key_bytes(1, 0) + varint_bytes((x as u64) as nat)
            };
            &&& foo_bytes(x) == bytes
            &&& spec_decode_foo(bytes) == Some(Foo { foole: x })
        }),
{
    law_foo_roundtrip(Foo { foole: x });
}

} // verus!
