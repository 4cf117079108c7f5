//! Protobuf wire encoding of the messages the bridge builds itself
//! (accounts and user operations carried inside `TypedMessage`s).

use vstd::prelude::*;

use vstd::utf8::{decode_utf8, encode_utf8, encode_utf8_decode_utf8};

verus! {

/// The largest field number protobuf allows.
pub const MAX_TAG: u32 = 536870911;

/// The two wire types the bridge's messages use.
#[derive(Clone, Copy, Debug, PartialEq, Eq, Structural)]
pub enum WireKind {
    /// Integers, booleans and enums (wire type 0).
    Varint,
    /// Strings, bytes and nested messages (wire type 2).
    LengthDelimited,
}

/// The number of a wire type.
pub open spec fn wire_code(w: WireKind) -> nat {
    match w {
        WireKind::Varint => 0,
        WireKind::LengthDelimited => 2,
    }
}

/// LEB128 encoding of `v`: seven bits per byte, least significant group first,
/// the high bit set on every byte but the last.
pub open spec fn varint(v: nat) -> Seq<u8>
    decreases v,
{
    if v < 128 {
        seq![v as u8]
    } else {
        seq![(v % 128 + 128) as u8] + varint(v / 128)
    }
}

/// The key that starts a field: its number and wire type, as a varint.
pub open spec fn field_key(tag: nat, w: WireKind) -> Seq<u8> {
    varint(tag * 8 + wire_code(w))
}

/// A length-delimited field holding `payload`.
pub open spec fn len_delimited(tag: nat, payload: Seq<u8>) -> Seq<u8> {
    field_key(tag, WireKind::LengthDelimited) + varint(payload.len()) + payload
}

/// A proto3 `string` field (left out when empty, as proto3 does for default values).
pub open spec fn string_field(tag: nat, s: Seq<char>) -> Seq<u8> {
    if s.len() == 0 {
        Seq::empty()
    } else {
        len_delimited(tag, encode_utf8(s))
    }
}

/// A proto3 `bytes` field (left out when empty).
pub open spec fn bytes_field(tag: nat, b: Seq<u8>) -> Seq<u8> {
    if b.len() == 0 {
        Seq::empty()
    } else {
        len_delimited(tag, b)
    }
}

/// A proto3 unsigned integer or enum field (left out when zero).
pub open spec fn uint_field(tag: nat, v: nat) -> Seq<u8> {
    if v == 0 {
        Seq::empty()
    } else {
        field_key(tag, WireKind::Varint) + varint(v)
    }
}

/// A present nested-message field whose encoding is `m`.
pub open spec fn message_field(tag: nat, m: Seq<u8>) -> Seq<u8> {
    len_delimited(tag, m)
}

/// Appends the LEB128 encoding of `value`.
pub fn put_varint(value: u64, buf: &mut Vec<u8>)
    ensures
        final(buf)@ == old(buf)@ + varint(value as nat),
{
    let ghost start = buf@;
    let mut v = value;
    while v >= 128
        invariant
            buf@ + varint(v as nat) == start + varint(value as nat),
        decreases v,
    {
        let byte: u8 = (v % 128 + 128) as u8;
        let ghost before = buf@;
        assert(varint(v as nat) == seq![byte] + varint((v / 128) as nat));
        buf.push(byte);
        assert(before + (seq![byte] + varint((v / 128) as nat)) =~= buf@ + varint(
            (v / 128) as nat,
        ));
        v = v / 128;
    }
    let ghost before = buf@;
    buf.push(v as u8);
    assert(varint(v as nat) == seq![v as u8]);
    assert(before + seq![v as u8] =~= buf@);
}

/// Appends the key that starts field `tag` of wire type `wire`.
pub fn put_key(tag: u32, wire: WireKind, buf: &mut Vec<u8>)
    requires
        1 <= tag <= MAX_TAG,
    ensures
        final(buf)@ == old(buf)@ + field_key(tag as nat, wire),
{
    let code: u64 = match wire {
        WireKind::Varint => 0,
        WireKind::LengthDelimited => 2,
    };
    put_varint(tag as u64 * 8 + code, buf);
}

/// Appends the bytes of `b`.
fn put_bytes(buf: &mut Vec<u8>, b: &[u8])
    ensures
        final(buf)@ == old(buf)@ + b@,
{
    let n = b.len();
    let mut i: usize = 0;
    let ghost start = buf@;
    while i < n
        invariant
            n == b@.len(),
            i <= n,
            buf@ == start + b@.subrange(0, i as int),
        decreases n - i,
    {
        buf.push(b[i]);
        assert(b@.subrange(0, i + 1) =~= b@.subrange(0, i as int).push(b@[i as int]));
        i += 1;
    }
    assert(b@.subrange(0, n as int) =~= b@);
}

/// Appends a length-delimited field holding `payload`.
pub fn put_len_delimited(buf: &mut Vec<u8>, tag: u32, payload: &[u8])
    requires
        1 <= tag <= MAX_TAG,
    ensures
        final(buf)@ == old(buf)@ + len_delimited(tag as nat, payload@),
{
    put_key(tag, WireKind::LengthDelimited, buf);
    put_varint(payload.len() as u64, buf);
    put_bytes(buf, payload);
    assert(final(buf)@ =~= old(buf)@ + len_delimited(tag as nat, payload@));
}

/// Appends a proto3 `string` field.
pub fn put_string_field(buf: &mut Vec<u8>, tag: u32, s: &str)
    requires
        1 <= tag <= MAX_TAG,
    ensures
        final(buf)@ == old(buf)@ + string_field(tag as nat, s@),
{
    if s.is_empty() {
        assert(old(buf)@ + Seq::<u8>::empty() =~= old(buf)@);
        return;
    }
    put_len_delimited(buf, tag, s.as_bytes());
}

/// Appends a proto3 `bytes` field.
pub fn put_bytes_field(buf: &mut Vec<u8>, tag: u32, b: &[u8])
    requires
        1 <= tag <= MAX_TAG,
    ensures
        final(buf)@ == old(buf)@ + bytes_field(tag as nat, b@),
{
    if b.len() == 0 {
        assert(old(buf)@ + Seq::<u8>::empty() =~= old(buf)@);
        return;
    }
    put_len_delimited(buf, tag, b);
}

/// Appends a proto3 unsigned integer or enum field.
pub fn put_uint_field(buf: &mut Vec<u8>, tag: u32, v: u64)
    requires
        1 <= tag <= MAX_TAG,
    ensures
        final(buf)@ == old(buf)@ + uint_field(tag as nat, v as nat),
{
    if v == 0 {
        assert(old(buf)@ + Seq::<u8>::empty() =~= old(buf)@);
        return;
    }
    put_key(tag, WireKind::Varint, buf);
    put_varint(v, buf);
    assert(final(buf)@ =~= old(buf)@ + uint_field(tag as nat, v as nat));
}

/// Reads a varint from the front of `b`: its value and the number of bytes it takes.
pub open spec fn read_varint(b: Seq<u8>) -> Option<(nat, nat)>
    decreases b.len(),
{
    if b.len() == 0 {
        None
    } else if b[0] < 128 {
        Some((b[0] as nat, 1nat))
    } else {
        match read_varint(b.drop_first()) {
            Some((v, n)) => Some((((b[0] - 128) + 128 * v) as nat, n + 1)),
            None => None,
        }
    }
}

/// Reads one field from the front of `b`, as a protobuf decoder does: (field number, wire
/// type, value, payload, bytes taken). A varint field (wire type 0) gives its integer value
/// and no payload; a length-delimited field (wire type 2) gives its length prefix and the
/// payload of that many bytes.
pub open spec fn read_field(b: Seq<u8>) -> Option<(nat, nat, nat, Seq<u8>, nat)> {
    match read_varint(b) {
        None => None,
        Some((key, n1)) => match read_varint(b.subrange(n1 as int, b.len() as int)) {
            None => None,
            Some((x, n2)) => if key % 8 == 0 {
                Some((key / 8, 0nat, x, Seq::empty(), n1 + n2))
            } else if key % 8 == 2 && n1 + n2 + x <= b.len() {
                Some((key / 8, 2nat, x, b.subrange((n1 + n2) as int, (n1 + n2 + x) as int), n1 + n2 + x))
            } else {
                None
            },
        },
    }
}

/// A varint reads back as the number it encodes, taking exactly its own bytes, whatever
/// follows it.
pub proof fn varint_reads_back(v: nat, rest: Seq<u8>)
    ensures
        read_varint(varint(v) + rest) == Some((v, varint(v).len())),
    decreases v,
{
    let b = varint(v) + rest;
    if v < 128 {
        assert(b[0] == v as u8);
    } else {
        let hi = v / 128;
        let low = (v % 128 + 128) as u8;
        assert(varint(v) == seq![low] + varint(hi));
        assert(b.drop_first() =~= varint(hi) + rest);
        varint_reads_back(hi, rest);
        assert(b[0] == low);
        assert(v == v % 128 + 128 * hi);
    }
}

proof fn lemma_key_parts(tag: nat, code: nat)
    requires
        code < 8,
    ensures
        (tag * 8 + code) % 8 == code,
        (tag * 8 + code) / 8 == tag,
{
    assert((tag * 8 + code) % 8 == code && (tag * 8 + code) / 8 == tag) by (nonlinear_arith)
        requires
            code < 8,
    ;
}

/// A length-delimited field reads back as its field number, wire type 2 and exactly its
/// payload, taking exactly its own bytes.
pub proof fn len_delimited_reads_back(tag: nat, p: Seq<u8>, rest: Seq<u8>)
    ensures
        read_field(len_delimited(tag, p) + rest) == Some(
            (tag, 2nat, p.len(), p, len_delimited(tag, p).len()),
        ),
{
    let key = tag * 8 + 2;
    let b = len_delimited(tag, p) + rest;
    let k1 = varint(key).len();
    let k2 = varint(p.len()).len();
    lemma_key_parts(tag, 2);
    assert(b =~= varint(key) + (varint(p.len()) + p + rest));
    varint_reads_back(key, varint(p.len()) + p + rest);
    assert(b.subrange(k1 as int, b.len() as int) =~= varint(p.len()) + (p + rest));
    varint_reads_back(p.len(), p + rest);
    assert(b.subrange((k1 + k2) as int, (k1 + k2 + p.len()) as int) =~= p);
}

/// A present unsigned-integer field reads back as its field number, wire type 0 and its
/// value, taking exactly its own bytes.
pub proof fn uint_field_reads_back(tag: nat, v: nat, rest: Seq<u8>)
    requires
        v > 0,
    ensures
        read_field(uint_field(tag, v) + rest) == Some(
            (tag, 0nat, v, Seq::<u8>::empty(), uint_field(tag, v).len()),
        ),
{
    let key = tag * 8;
    let b = uint_field(tag, v) + rest;
    let k1 = varint(key).len();
    lemma_key_parts(tag, 0);
    assert(b =~= varint(key) + (varint(v) + rest));
    varint_reads_back(key, varint(v) + rest);
    assert(b.subrange(k1 as int, b.len() as int) =~= varint(v) + rest);
    varint_reads_back(v, rest);
}

/// A non-empty string field, followed by anything, reads back as one length-delimited
/// field of the same number whose length prefix counts the UTF-8 bytes that follow, and
/// whose payload decodes to the very string; an empty string writes nothing.
pub proof fn string_field_reads_back(tag: nat, s: Seq<char>, rest: Seq<u8>)
    ensures
        s.len() == 0 ==> string_field(tag, s).len() == 0,
        s.len() > 0 ==> (read_field(string_field(tag, s) + rest) matches Some((t, w, n, p, used))
            && t == tag && w == 2 && n == encode_utf8(s).len() && p == encode_utf8(s)
            && decode_utf8(p) == s && used == string_field(tag, s).len()),
{
    if s.len() > 0 {
        len_delimited_reads_back(tag, encode_utf8(s), rest);
        encode_utf8_decode_utf8(s);
    }
}

} // verus!
