use reflector::codec::lichtgefecht::Foo;
use reflector::codec::varint::{read_varint, write_varint};
use reflector::codec::wire::{decode_key, skip_field};

#[test]
fn mod_can_decode_own_encoding() {
    let foo = Foo { foole: 42 };
    let mut buf = Vec::new();
    foo.encode(&mut buf);
    let bar = Foo::decode(&buf).unwrap();
    assert!(bar.foole == 42);
}

#[test]
fn pb_integration_test_can_decode_own_encoding() {
    let foo = Foo { foole: 42 };
    let mut buf = Vec::new();
    foo.encode(&mut buf);
    let bar = Foo::decode(&buf).unwrap();
    assert!(bar.foole == 42);
}

#[test]
fn foo_encodes_to_key_and_varint() {
    let mut buf = Vec::new();
    Foo { foole: 42 }.encode(&mut buf);
    assert_eq!(buf, vec![0x08, 0x2a]);
}

#[test]
fn foo_default_encodes_to_nothing() {
    let mut buf = Vec::new();
    Foo { foole: 0 }.encode(&mut buf);
    assert!(buf.is_empty());
    assert_eq!(Foo::decode(&buf), Ok(Foo { foole: 0 }));
}

#[test]
fn foo_negative_takes_ten_bytes_and_roundtrips() {
    let mut buf = Vec::new();
    Foo { foole: -1 }.encode(&mut buf);
    assert_eq!(buf.len(), 11);
    assert_eq!(Foo::decode(&buf), Ok(Foo { foole: -1 }));
}

#[test]
fn foo_last_field_wins_and_unknown_fields_are_skipped() {
    // foole = 1, unknown field 2 (length-delimited "ab"), unknown fixed32 field 3, foole = 7
    let buf = vec![0x08, 0x01, 0x12, 0x02, b'a', b'b', 0x1d, 1, 2, 3, 4, 0x08, 0x07];
    assert_eq!(Foo::decode(&buf), Ok(Foo { foole: 7 }));
}

#[test]
fn foo_skips_groups() {
    // start group 5, a varint field 1 inside, end group 5, then foole = 3
    let buf = vec![0x2b, 0x08, 0x01, 0x2c, 0x08, 0x03];
    assert_eq!(Foo::decode(&buf), Ok(Foo { foole: 3 }));
}

#[test]
fn foo_rejects_malformed_input() {
    // truncated varint
    assert!(Foo::decode(&[0x08, 0x80]).is_err());
    // field 1 with the wrong wire type
    assert!(Foo::decode(&[0x0d, 1, 2, 3, 4]).is_err());
    // tag 0
    assert!(Foo::decode(&[0x00, 0x01]).is_err());
    // wire type 7
    assert!(Foo::decode(&[0x0f]).is_err());
    // a length beyond the end
    assert!(Foo::decode(&[0x12, 0x05, 1]).is_err());
    // an end group without a start
    assert!(Foo::decode(&[0x2c]).is_err());
    // a group closed with another tag
    assert!(Foo::decode(&[0x2b, 0x34]).is_err());
}

#[test]
fn foo_decode_truncates_to_32_bits() {
    // foole = 2^32 + 5 as a varint
    let mut buf = vec![0x08];
    write_varint((1u64 << 32) + 5, &mut buf);
    assert_eq!(Foo::decode(&buf), Ok(Foo { foole: 5 }));
}

#[test]
fn varint_known_bytes() {
    let mut buf = Vec::new();
    write_varint(300, &mut buf);
    assert_eq!(buf, vec![0xac, 0x02]);
    let (v, rest) = read_varint(&[0xac, 0x02, 0x99]).unwrap();
    assert_eq!(v, 300);
    assert_eq!(rest, &[0x99]);
}

#[test]
fn varint_limits() {
    let mut buf = Vec::new();
    write_varint(u64::MAX, &mut buf);
    assert_eq!(buf.len(), 10);
    assert_eq!(read_varint(&buf).unwrap().0, u64::MAX);
    // a tenth byte of 2 overflows 64 bits
    let bad = [0xff, 0xff, 0xff, 0xff, 0xff, 0xff, 0xff, 0xff, 0xff, 0x02];
    assert!(read_varint(&bad).is_err());
    assert!(read_varint(&[]).is_err());
}

#[test]
fn keys_and_skipping() {
    let (tag, wt, rest) = decode_key(&[0x1a, 0x00]).unwrap();
    assert_eq!((tag, wt, rest), (3, 2, &[0x00u8][..]));
    // a key above 32 bits
    assert!(decode_key(&[0x80, 0x80, 0x80, 0x80, 0x10]).is_err());
    assert_eq!(skip_field(1, 9, &[1, 2, 3, 4, 5, 6, 7, 8, 9], 100).unwrap(), &[9]);
    assert!(skip_field(1, 9, &[1, 2, 3], 100).is_err());
    assert!(skip_field(0, 9, &[1], 0).is_err());
}
