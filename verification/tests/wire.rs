use xray_bridge::wire::{put_key, put_uint_field, put_varint, WireKind};

#[test]
fn varint_is_leb128() {
    let mut buf = Vec::new();
    put_varint(0, &mut buf);
    assert_eq!(buf, vec![0x00]);
    let mut buf = Vec::new();
    put_varint(127, &mut buf);
    assert_eq!(buf, vec![0x7f]);
    let mut buf = Vec::new();
    put_varint(300, &mut buf);
    assert_eq!(buf, vec![0xac, 0x02]);
    let mut buf = vec![0x55];
    put_varint(u64::MAX, &mut buf);
    assert_eq!(
        buf,
        vec![0x55, 0xff, 0xff, 0xff, 0xff, 0xff, 0xff, 0xff, 0xff, 0xff, 0x01]
    );
}

#[test]
fn field_keys_pack_tag_and_wire_type() {
    let mut buf = Vec::new();
    put_key(1, WireKind::LengthDelimited, &mut buf);
    put_key(2, WireKind::Varint, &mut buf);
    put_key(16, WireKind::Varint, &mut buf);
    assert_eq!(buf, vec![0x0a, 0x10, 0x80, 0x01]);
}

#[test]
fn zero_uint_field_is_left_out() {
    let mut buf = Vec::new();
    put_uint_field(&mut buf, 2, 0);
    assert!(buf.is_empty());
    put_uint_field(&mut buf, 2, 7);
    assert_eq!(buf, vec![0x10, 0x07]);
}
