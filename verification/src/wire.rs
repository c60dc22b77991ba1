//! The wire format, stated mathematically.
//!
//! A value travels as `[category][name_len][name][payload]`, where
//! the single-byte category tags the shape, the type name is
//! length-prefixed UTF-8, and the payload is the value's own
//! encoding: integers as eight little-endian bytes, text and
//! sequences with a 64-bit little-endian count in front.

use vstd::prelude::*;
use vstd::utf8::encode_utf8;

use crate::value::{entries_eq_spec, ConcreteValue, ValueCategory};

verus! {

/// The eight little-endian bytes of a 64-bit unsigned integer.
pub open spec fn u64_le(x: u64) -> Seq<u8> {
    seq![
        (x & 0xff) as u8,
        ((x >> 8) & 0xff) as u8,
        ((x >> 16) & 0xff) as u8,
        ((x >> 24) & 0xff) as u8,
        ((x >> 32) & 0xff) as u8,
        ((x >> 40) & 0xff) as u8,
        ((x >> 48) & 0xff) as u8,
        ((x >> 56) & 0xff) as u8,
    ]
}

/// The eight little-endian bytes of a 64-bit signed integer, in
/// two's complement.
pub open spec fn i64_le(x: i64) -> Seq<u8> {
    u64_le(x as u64)
}

/// The 64-bit unsigned integer read from eight little-endian bytes.
pub open spec fn u64_of_le(b: Seq<u8>) -> u64
    recommends
        b.len() >= 8,
{
    (b[0] as u64) | ((b[1] as u64) << 8) | ((b[2] as u64) << 16) | ((b[3] as u64) << 24) | (
    (b[4] as u64) << 32) | ((b[5] as u64) << 40) | ((b[6] as u64) << 48) | ((b[7] as u64) << 56)
}

/// Reading back the eight bytes of an integer yields the integer.
pub proof fn lemma_u64_le_roundtrip(x: u64)
    ensures
        u64_of_le(u64_le(x)) == x,
{
    let s = u64_le(x);
    assert(((x & 0xff) as u8 as u64) | ((((x >> 8) & 0xff) as u8 as u64) << 8) | ((((x >> 16)
        & 0xff) as u8 as u64) << 16) | ((((x >> 24) & 0xff) as u8 as u64) << 24) | ((((x >> 32)
        & 0xff) as u8 as u64) << 32) | ((((x >> 40) & 0xff) as u8 as u64) << 40) | ((((x >> 48)
        & 0xff) as u8 as u64) << 48) | ((((x >> 56) & 0xff) as u8 as u64) << 56) == x)
        by (bit_vector);
}

/// Writing back the integer read from eight bytes yields the bytes.
pub proof fn lemma_u64_le_of_le(b: Seq<u8>)
    requires
        b.len() == 8,
    ensures
        u64_le(u64_of_le(b)) == b,
{
    let b0 = b[0];
    let b1 = b[1];
    let b2 = b[2];
    let b3 = b[3];
    let b4 = b[4];
    let b5 = b[5];
    let b6 = b[6];
    let b7 = b[7];
    let x = (b0 as u64) | ((b1 as u64) << 8) | ((b2 as u64) << 16) | ((b3 as u64) << 24) | ((
    b4 as u64) << 32) | ((b5 as u64) << 40) | ((b6 as u64) << 48) | ((b7 as u64) << 56);
    assert((x & 0xff) as u8 == b0 && ((x >> 8) & 0xff) as u8 == b1 && ((x >> 16) & 0xff) as u8
        == b2 && ((x >> 24) & 0xff) as u8 == b3 && ((x >> 32) & 0xff) as u8 == b4 && ((x >> 40)
        & 0xff) as u8 == b5 && ((x >> 48) & 0xff) as u8 == b6 && ((x >> 56) & 0xff) as u8 == b7)
        by (bit_vector)
        requires
            x == (b0 as u64) | ((b1 as u64) << 8) | ((b2 as u64) << 16) | ((b3 as u64) << 24) | (
            (b4 as u64) << 32) | ((b5 as u64) << 40) | ((b6 as u64) << 48) | ((b7 as u64) << 56),
    ;
    assert(u64_le(u64_of_le(b)) =~= b);
}

/// The little-endian encoding of unsigned integers is injective.
pub proof fn lemma_u64_le_injective(x: u64, y: u64)
    requires
        u64_le(x) == u64_le(y),
    ensures
        x == y,
{
    lemma_u64_le_roundtrip(x);
    lemma_u64_le_roundtrip(y);
}

/// The little-endian encoding of signed integers is injective.
pub proof fn lemma_i64_le_injective(x: i64, y: i64)
    requires
        i64_le(x) == i64_le(y),
    ensures
        x == y,
{
    lemma_u64_le_injective(x as u64, y as u64);
    assert(x as u64 == y as u64 ==> x == y) by (bit_vector);
}

/// The byte encodings of a sequence of 64-bit integers, one after
/// the other.
pub open spec fn ints_le(l: Seq<i64>) -> Seq<u8>
    decreases l.len(),
{
    if l.len() == 0 {
        Seq::empty()
    } else {
        i64_le(l[0]) + ints_le(l.drop_first())
    }
}

/// Eight bytes per element.
pub proof fn lemma_ints_le_len(l: Seq<i64>)
    ensures
        ints_le(l).len() == 8 * l.len(),
    decreases l.len(),
{
    if l.len() > 0 {
        lemma_ints_le_len(l.drop_first());
    }
}

/// Appending one integer appends its eight bytes.
pub proof fn lemma_ints_le_push(l: Seq<i64>, x: i64)
    ensures
        ints_le(l.push(x)) == ints_le(l) + i64_le(x),
    decreases l.len(),
{
    if l.len() == 0 {
        assert(l.push(x)[0] == x);
        assert(l.push(x).drop_first() =~= l);
        assert(ints_le(l) =~= Seq::<u8>::empty());
        assert(ints_le(l.push(x)) == i64_le(x) + ints_le(l));
        assert(i64_le(x) + ints_le(l) =~= ints_le(l) + i64_le(x));
    } else {
        assert(l.push(x)[0] == l[0]);
        assert(l.push(x).drop_first() =~= l.drop_first().push(x));
        lemma_ints_le_push(l.drop_first(), x);
        assert(ints_le(l.push(x)) =~= ints_le(l) + i64_le(x));
    }
}

/// A sequence whose chunks of eight bytes each encode the elements
/// of `l` is the encoding of `l`.
pub proof fn lemma_ints_le_of_chunks(l: Seq<i64>, b: Seq<u8>)
    requires
        b.len() == 8 * l.len(),
        forall|i: int|
            0 <= i < l.len() ==> b.subrange(8 * i, 8 * i + 8) == i64_le(#[trigger] l[i]),
    ensures
        ints_le(l) == b,
    decreases l.len(),
{
    if l.len() == 0 {
        assert(ints_le(l) =~= b);
    } else {
        let rest = b.skip(8);
        assert forall|i: int| 0 <= i < l.drop_first().len() implies rest.subrange(
            8 * i,
            8 * i + 8,
        ) == i64_le(#[trigger] l.drop_first()[i]) by {
            assert(l.drop_first()[i] == l[i + 1]);
            assert(rest.subrange(8 * i, 8 * i + 8) =~= b.subrange(8 * (i + 1), 8 * (i + 1) + 8));
        }
        lemma_ints_le_of_chunks(l.drop_first(), rest);
        assert(b.subrange(0, 8) == i64_le(l[0]));
        assert(ints_le(l) =~= b);
    }
}

/// Equal-length integer sequences with the same encoding are equal.
pub proof fn lemma_ints_le_injective(a: Seq<i64>, b: Seq<i64>)
    requires
        a.len() == b.len(),
        ints_le(a) == ints_le(b),
    ensures
        a == b,
    decreases a.len(),
{
    if a.len() == 0 {
        assert(a =~= b);
    } else {
        lemma_ints_le_len(a.drop_first());
        lemma_ints_le_len(b.drop_first());
        let ea = ints_le(a);
        let eb = ints_le(b);
        assert(ea.subrange(0, 8) =~= i64_le(a[0]));
        assert(eb.subrange(0, 8) =~= i64_le(b[0]));
        lemma_i64_le_injective(a[0], b[0]);
        assert(ea.skip(8) =~= ints_le(a.drop_first()));
        assert(eb.skip(8) =~= ints_le(b.drop_first()));
        lemma_ints_le_injective(a.drop_first(), b.drop_first());
        assert forall|i: int| 0 <= i < a.len() implies a[i] == b[i] by {
            if i > 0 {
                assert(a.drop_first()[i - 1] == a[i]);
                assert(b.drop_first()[i - 1] == b[i]);
            }
        }
        assert(a =~= b);
    }
}

/// The single byte a boolean encodes to.
pub open spec fn bool_byte(b: bool) -> u8 {
    if b {
        1
    } else {
        0
    }
}

/// The payload encoding of a text string: a 64-bit little-endian
/// count of its UTF-8 bytes, then those bytes.
pub open spec fn text_payload(s: Seq<char>) -> Seq<u8> {
    u64_le(encode_utf8(s).len() as u64) + encode_utf8(s)
}

/// The payload encoding of an integer list: a 64-bit little-endian
/// element count, then the elements.
pub open spec fn intlist_payload(l: Seq<i64>) -> Seq<u8> {
    u64_le(l.len() as u64) + ints_le(l)
}

/// The byte encodings of mapping entries, one after the other: each
/// entry is its key text followed by its integer value.
pub open spec fn entries_le(es: Seq<(String, i64)>) -> Seq<u8>
    decreases es.len(),
{
    if es.len() == 0 {
        Seq::empty()
    } else {
        text_payload(es[0].0@) + i64_le(es[0].1) + entries_le(es.drop_first())
    }
}

/// The payload encoding of mapping entries: a 64-bit little-endian
/// entry count, then the entries.
pub open spec fn entries_payload(es: Seq<(String, i64)>) -> Seq<u8> {
    u64_le(es.len() as u64) + entries_le(es)
}

/// Equal entries encode to equal bytes.
proof fn lemma_entries_le_congruent(a: Seq<(String, i64)>, b: Seq<(String, i64)>)
    requires
        entries_eq_spec(a, b),
    ensures
        entries_le(a) == entries_le(b),
    decreases a.len(),
{
    if a.len() == 0 {
        assert(entries_le(a) =~= entries_le(b));
    } else {
        assert((a[0]).0@ == b[0].0@ && a[0].1 == b[0].1);
        assert(entries_eq_spec(a.drop_first(), b.drop_first())) by {
            assert forall|i: int|
                0 <= i < a.drop_first().len() implies (#[trigger] a.drop_first()[i]).0@
                == b.drop_first()[i].0@ && a.drop_first()[i].1 == b.drop_first()[i].1 by {
                assert(a.drop_first()[i] == a[i + 1]);
                assert(b.drop_first()[i] == b[i + 1]);
                assert((a[i + 1]).0@ == b[i + 1].0@ && a[i + 1].1 == b[i + 1].1);
            }
        }
        lemma_entries_le_congruent(a.drop_first(), b.drop_first());
        assert(entries_le(a) =~= entries_le(b));
    }
}

/// Equal entries have the same payload encoding: the encoding
/// depends on the key texts and values alone.
pub proof fn lemma_entries_payload_congruent(a: Seq<(String, i64)>, b: Seq<(String, i64)>)
    requires
        entries_eq_spec(a, b),
    ensures
        entries_payload(a) == entries_payload(b),
{
    lemma_entries_le_congruent(a, b);
}

/// The payload encoding of a record: its fields, one after the
/// other, with no count (the field count is part of the type).
pub open spec fn record_payload(fields: Seq<i64>) -> Seq<u8> {
    ints_le(fields)
}

/// The payload encoding of a concrete value.
pub open spec fn payload_of(v: &ConcreteValue) -> Seq<u8> {
    match v {
        ConcreteValue::I64(x) => i64_le(*x),
        ConcreteValue::Bool(b) => seq![bool_byte(*b)],
        ConcreteValue::Text(s) => text_payload(s@),
        ConcreteValue::IntList(l) => intlist_payload(l@),
        ConcreteValue::Entries(es) => entries_payload(es@),
        ConcreteValue::Record(_, f) => record_payload(f@),
        ConcreteValue::Raw(b) => b@,
    }
}

/// The single byte tagging each category on the wire.
pub open spec fn category_byte_spec(c: ValueCategory) -> u8 {
    match c {
        ValueCategory::Primitive => 1,
        ValueCategory::List => 2,
        ValueCategory::Mapping => 3,
        ValueCategory::Struct => 4,
        ValueCategory::Null => 5,
        ValueCategory::Bytes => 6,
    }
}

/// The category a wire byte denotes, if any.
pub open spec fn category_of_byte_spec(b: u8) -> Option<ValueCategory> {
    if b == 1 {
        Some(ValueCategory::Primitive)
    } else if b == 2 {
        Some(ValueCategory::List)
    } else if b == 3 {
        Some(ValueCategory::Mapping)
    } else if b == 4 {
        Some(ValueCategory::Struct)
    } else if b == 5 {
        Some(ValueCategory::Null)
    } else if b == 6 {
        Some(ValueCategory::Bytes)
    } else {
        None
    }
}

/// The header of a non-null value: category byte, name length byte,
/// name bytes. Meaningful only when the name fits 255 bytes.
pub open spec fn header_bytes(c: ValueCategory, name: Seq<char>) -> Seq<u8> {
    seq![category_byte_spec(c)] + seq![encode_utf8(name).len() as u8] + encode_utf8(name)
}

/// The complete wire form of a non-null value.
pub open spec fn wire_bytes(c: ValueCategory, name: Seq<char>, payload: Seq<u8>) -> Seq<u8> {
    header_bytes(c, name) + payload
}

/// `a` is a prefix of `b`.
pub open spec fn is_prefix_of(a: Seq<u8>, b: Seq<u8>) -> bool {
    a.len() <= b.len() && b.subrange(0, a.len() as int) == a
}

/// The exec mapping from category to wire byte.
pub fn category_byte(c: ValueCategory) -> (r: u8)
    ensures
        r == category_byte_spec(c),
{
    match c {
        ValueCategory::Primitive => 1,
        ValueCategory::List => 2,
        ValueCategory::Mapping => 3,
        ValueCategory::Struct => 4,
        ValueCategory::Null => 5,
        ValueCategory::Bytes => 6,
    }
}

/// The exec mapping from wire byte to category.
pub fn category_of_byte(b: u8) -> (r: Option<ValueCategory>)
    ensures
        r == category_of_byte_spec(b),
{
    if b == 1 {
        Some(ValueCategory::Primitive)
    } else if b == 2 {
        Some(ValueCategory::List)
    } else if b == 3 {
        Some(ValueCategory::Mapping)
    } else if b == 4 {
        Some(ValueCategory::Struct)
    } else if b == 5 {
        Some(ValueCategory::Null)
    } else if b == 6 {
        Some(ValueCategory::Bytes)
    } else {
        None
    }
}

} // verus!
