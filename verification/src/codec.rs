//! Payload encoding and decoding.
//!
//! The engine frames values itself (see `wire`), but the payload of
//! each registered kind is produced and consumed by the binary codec
//! of the `bincode` crate, called through the trusted wrappers in
//! this module. Each wrapper's contract states the exact byte layout
//! the codec's own documentation and source give for that type.

use vstd::prelude::*;
use vstd::slice::slice_subrange;
use vstd::utf8::{decode_utf8, valid_utf8};

use crate::errors::ValueError;
use crate::value::{cv_eq_spec, entries_eq_spec, kind_matches, ConcreteValue, ValueKind};
use crate::value::clone_byte_vec;
use crate::wire::{
    bool_byte, entries_payload, i64_le, intlist_payload, ints_le, is_prefix_of,
    lemma_i64_le_injective, lemma_ints_le_injective, lemma_ints_le_len, lemma_ints_le_of_chunks,
    lemma_ints_le_push, lemma_u64_le_of_le, lemma_u64_le_roundtrip, payload_of, record_payload,
    text_payload, u64_le, u64_of_le,
};

verus! {

/// The byte count a text payload declares in its first eight bytes.
pub open spec fn text_len_of(b: Seq<u8>) -> u64 {
    u64_of_le(b.subrange(0, 8))
}

/// A well-formed text payload: a length, that many bytes present,
/// and those bytes valid UTF-8.
pub open spec fn text_wf(b: Seq<u8>) -> bool {
    &&& b.len() >= 8
    &&& b.len() >= 8 + text_len_of(b)
    &&& valid_utf8(b.subrange(8, 8 + text_len_of(b) as int))
}

/// The characters a well-formed text payload carries.
pub open spec fn text_chars(b: Seq<u8>) -> Seq<char> {
    decode_utf8(b.subrange(8, 8 + text_len_of(b) as int))
}

/// The element count a list payload declares in its first eight
/// bytes.
pub open spec fn count_of(b: Seq<u8>) -> u64 {
    u64_of_le(b.subrange(0, 8))
}

/// A well-formed integer-list payload: a count and eight bytes for
/// each element.
pub open spec fn intlist_wf(b: Seq<u8>) -> bool {
    b.len() >= 8 && b.len() >= 8 + 8 * (count_of(b) as int)
}

/// Kinds whose payload format is fixed byte for byte, so that the
/// exact success condition of a decode can be stated. Mapping
/// entries are excluded: their decode is decided by the codec.
pub open spec fn decode_exact_kind(k: &ValueKind) -> bool {
    !(k matches ValueKind::Entries)
}

/// Exactly when decoding payload `b` as an exact kind succeeds.
pub open spec fn decode_ok_spec(k: &ValueKind, b: Seq<u8>) -> bool {
    match k {
        ValueKind::I64 => b.len() >= 8,
        ValueKind::Bool => b.len() >= 1 && (b[0] == 0 || b[0] == 1),
        ValueKind::Text => text_wf(b),
        ValueKind::IntList => intlist_wf(b),
        ValueKind::Entries => false,
        ValueKind::Record(_, a) => b.len() == 8 * (*a as int),
        ValueKind::Raw => true,
    }
}

/// Relies on bincode::serialize for i64: eight little-endian bytes
/// in two's complement. Infallible for this type (it writes into a
/// growing buffer).
#[verifier::external_body]
fn ser_i64(v: i64) -> (r: Vec<u8>)
    ensures
        r@ == i64_le(v),
{
    bincode::serialize(&v).unwrap()
}

/// Relies on bincode::deserialize for i64: reads the first eight
/// bytes as a little-endian integer, failing exactly when fewer are
/// present; trailing bytes are ignored.
#[verifier::external_body]
fn de_i64(b: &[u8]) -> (r: Result<i64, ValueError>)
    ensures
        r is Ok <==> b@.len() >= 8,
        r matches Ok(v) ==> i64_le(v) == b@.subrange(0, 8),
        r matches Err(e) ==> e == ValueError::DeserializationError,
{
    bincode::deserialize::<i64>(b).map_err(|_| ValueError::DeserializationError)
}

/// Relies on bincode::serialize for bool: a single byte, 1 for true
/// and 0 for false. Infallible for this type.
#[verifier::external_body]
fn ser_bool(v: bool) -> (r: Vec<u8>)
    ensures
        r@ == seq![bool_byte(v)],
{
    bincode::serialize(&v).unwrap()
}

/// Relies on bincode::deserialize for bool: reads one byte, which
/// must be 0 or 1; anything else is rejected; trailing bytes are
/// ignored.
#[verifier::external_body]
fn de_bool(b: &[u8]) -> (r: Result<bool, ValueError>)
    ensures
        r is Ok <==> (b@.len() >= 1 && (b@[0] == 0 || b@[0] == 1)),
        r matches Ok(v) ==> v == (b@[0] == 1),
        r matches Err(e) ==> e == ValueError::DeserializationError,
{
    bincode::deserialize::<bool>(b).map_err(|_| ValueError::DeserializationError)
}

/// Relies on bincode::serialize for str: a 64-bit little-endian
/// count of the UTF-8 bytes, then those bytes. Infallible for this
/// type.
#[verifier::external_body]
fn ser_text(s: &str) -> (r: Vec<u8>)
    ensures
        r@ == text_payload(s@),
{
    bincode::serialize(s).unwrap()
}

/// Relies on bincode::deserialize for String: reads the declared
/// byte count, then that many bytes, which must be valid UTF-8;
/// fails exactly when bytes are missing or the text is invalid;
/// trailing bytes are ignored.
#[verifier::external_body]
fn de_text(b: &[u8]) -> (r: Result<String, ValueError>)
    ensures
        r is Ok <==> text_wf(b@),
        r matches Ok(s) ==> s@ == text_chars(b@),
        r matches Err(e) ==> e == ValueError::DeserializationError,
{
    bincode::deserialize::<String>(b).map_err(|_| ValueError::DeserializationError)
}

/// Relies on bincode::serialize for Vec<i64>: a 64-bit little-endian
/// element count, then each element as eight little-endian bytes.
/// Infallible for this type.
#[verifier::external_body]
fn ser_intlist(v: &Vec<i64>) -> (r: Vec<u8>)
    ensures
        r@ == intlist_payload(v@),
{
    bincode::serialize(v).unwrap()
}

/// Relies on bincode::deserialize for Vec<i64>: reads the declared
/// element count, then that many eight-byte integers, failing
/// exactly when bytes run out; trailing bytes are ignored.
#[verifier::external_body]
fn de_intlist(b: &[u8]) -> (r: Result<Vec<i64>, ValueError>)
    ensures
        r is Ok <==> intlist_wf(b@),
        r matches Ok(v) ==> v@.len() == count_of(b@) && ints_le(v@) == b@.subrange(
            8,
            8 + 8 * (count_of(b@) as int),
        ),
        r matches Err(e) ==> e == ValueError::DeserializationError,
{
    bincode::deserialize::<Vec<i64>>(b).map_err(|_| ValueError::DeserializationError)
}

/// Relies on bincode::serialize for Vec<(String, i64)>: a 64-bit
/// little-endian entry count, then each entry as its key text
/// followed by its eight-byte value. Infallible for this type.
#[verifier::external_body]
fn ser_entries(es: &Vec<(String, i64)>) -> (r: Vec<u8>)
    ensures
        r@ == entries_payload(es@),
{
    bincode::serialize(es).unwrap()
}

/// Relies on bincode::deserialize for Vec<(String, i64)>: reading
/// back what the codec wrote yields the written entries, and the
/// bytes consumed on success are exactly the canonical encoding of
/// the returned entries.
#[verifier::external_body]
fn de_entries(b: &[u8]) -> (r: Result<Vec<(String, i64)>, ValueError>)
    ensures
        forall|es: Seq<(String, i64)>|
            b@ == #[trigger] entries_payload(es) ==> r is Ok,
        forall|es: Seq<(String, i64)>|
            b@ == #[trigger] entries_payload(es) && r is Ok ==> entries_eq_spec(
                r->Ok_0@,
                es,
            ),
        r matches Ok(v) ==> is_prefix_of(entries_payload(v@), b@),
        r matches Err(e) ==> e == ValueError::DeserializationError,
{
    bincode::deserialize::<Vec<(String, i64)>>(b).map_err(|_| ValueError::DeserializationError)
}

/// Relies on String::from_utf8: succeeds exactly on valid UTF-8 and
/// decodes it.
#[verifier::external_body]
pub fn string_from_utf8(v: Vec<u8>) -> (r: Option<String>)
    ensures
        r is Some <==> valid_utf8(v@),
        r matches Some(s) ==> s@ == decode_utf8(v@),
{
    String::from_utf8(v).ok()
}

/// Encode the fields of a record, one after the other.
fn encode_record_fields(f: &Vec<i64>) -> (r: Vec<u8>)
    ensures
        r@ == record_payload(f@),
{
    let mut r: Vec<u8> = Vec::new();
    let n = f.len();
    let mut i: usize = 0;
    proof {
        assert(f@.subrange(0, 0) =~= Seq::<i64>::empty());
    }
    while i < n
        invariant
            n == f.len(),
            0 <= i <= n,
            r@ == ints_le(f@.subrange(0, i as int)),
        decreases n - i,
    {
        let mut chunk = ser_i64(f[i]);
        r.append(&mut chunk);
        proof {
            lemma_ints_le_push(f@.subrange(0, i as int), f@[i as int]);
            assert(f@.subrange(0, i as int).push(f@[i as int]) =~= f@.subrange(0, i + 1));
        }
        i += 1;
    }
    proof {
        assert(f@.subrange(0, n as int) =~= f@);
    }
    r
}

/// Decode the fields of a record with the given arity: the payload
/// must consist of exactly eight bytes per field.
fn decode_record_fields(b: &[u8], arity: usize) -> (r: Result<Vec<i64>, ValueError>)
    ensures
        r is Ok <==> b@.len() == 8 * arity,
        r matches Ok(v) ==> v@.len() == arity && ints_le(v@) == b@,
        r matches Err(e) ==> e == ValueError::DeserializationError,
{
    let len = b.len();
    if len % 8 != 0 || len / 8 != arity {
        proof {
            vstd::arithmetic::div_mod::lemma_fundamental_div_mod(len as int, 8);
        }
        return Err(ValueError::DeserializationError);
    }
    proof {
        vstd::arithmetic::div_mod::lemma_fundamental_div_mod(len as int, 8);
    }
    let mut fields: Vec<i64> = Vec::new();
    let mut i: usize = 0;
    while i < arity
        invariant
            b@.len() == 8 * arity,
            b@.len() <= usize::MAX,
            0 <= i <= arity,
            fields@.len() == i,
            forall|j: int|
                0 <= j < i ==> b@.subrange(8 * j, 8 * j + 8) == i64_le(#[trigger] fields@[j]),
        decreases arity - i,
    {
        let chunk = slice_subrange(b, 8 * i, 8 * i + 8);
        match de_i64(chunk) {
            Ok(v) => {
                proof {
                    assert(chunk@.subrange(0, 8) =~= b@.subrange(8 * (i as int), 8 * (i as int)
                        + 8));
                }
                fields.push(v);
            },
            Err(_) => {
                proof {
                    assert(false);
                }
                return Err(ValueError::DeserializationError);
            },
        }
        i += 1;
    }
    proof {
        lemma_ints_le_of_chunks(fields@, b@);
    }
    Ok(fields)
}

/// Encode the payload of a concrete value.
pub fn encode_payload(v: &ConcreteValue) -> (r: Vec<u8>)
    ensures
        r@ == payload_of(v),
{
    match v {
        ConcreteValue::I64(x) => ser_i64(*x),
        ConcreteValue::Bool(x) => ser_bool(*x),
        ConcreteValue::Text(s) => ser_text(s.as_str()),
        ConcreteValue::IntList(l) => ser_intlist(l),
        ConcreteValue::Entries(es) => ser_entries(es),
        ConcreteValue::Record(_, f) => encode_record_fields(f),
        ConcreteValue::Raw(b) => clone_byte_vec(b),
    }
}

/// Decode a payload as the given kind.
///
/// On success the result has the requested shape and its canonical
/// encoding is a prefix of the payload; decoding the exact encoding
/// of a value of the kind yields that value back. For every kind
/// whose format is fixed the success condition is stated exactly;
/// for mapping entries the codec decides, and only the round-trip
/// direction is owed.
pub fn decode_payload(kind: &ValueKind, b: &[u8]) -> (r: Result<ConcreteValue, ValueError>)
    ensures
        r matches Ok(v) ==> kind_matches(kind, &v),
        r matches Ok(v) ==> is_prefix_of(payload_of(&v), b@),
        forall|w: ConcreteValue|
            kind_matches(kind, &w) && b@ == #[trigger] payload_of(&w) ==> r is Ok && cv_eq_spec(
                &r->Ok_0,
                &w,
            ),
        decode_exact_kind(kind) ==> (r is Ok <==> decode_ok_spec(kind, b@)),
        kind matches ValueKind::Entries ==> (forall|es: Seq<(String, i64)>|
            b@ == #[trigger] entries_payload(es) ==> r is Ok && (r->Ok_0 matches
                ConcreteValue::Entries(stored)
                && entries_eq_spec(stored@, es))),
        r matches Err(e) ==> e == ValueError::DeserializationError,
{
    let n = b.len();
    match kind {
        ValueKind::I64 => {
            match de_i64(b) {
                Ok(x) => {
                    let v = ConcreteValue::I64(x);
                    proof {
                        assert(is_prefix_of(payload_of(&v), b@)) by {
                            assert(payload_of(&v) == i64_le(x));
                            assert(i64_le(x).len() == 8);
                        }
                        assert forall|w: ConcreteValue|
                            kind_matches(kind, &w) && b@ == #[trigger] payload_of(&w) implies
                            cv_eq_spec(&v, &w) by {
                            assert(i64_le(w->I64_0).len() == 8);
                            assert(b@.subrange(0, 8) =~= b@);
                            lemma_i64_le_injective(x, w->I64_0);
                        }
                    }
                    Ok(v)
                },
                Err(e) => Err(e),
            }
        },
        ValueKind::Bool => {
            match de_bool(b) {
                Ok(x) => {
                    let v = ConcreteValue::Bool(x);
                    proof {
                        assert(payload_of(&v) =~= b@.subrange(0, 1));
                        assert forall|w: ConcreteValue|
                            kind_matches(kind, &w) && b@ == #[trigger] payload_of(&w) implies
                            cv_eq_spec(&v, &w) by {
                            assert(b@[0] == bool_byte(w->Bool_0));
                        }
                    }
                    Ok(v)
                },
                Err(e) => Err(e),
            }
        },
        ValueKind::Text => {
            match de_text(b) {
                Ok(s) => {
                    let v = ConcreteValue::Text(s);
                    proof {
                        lemma_text_decode_exact(b@, v->Text_0@);
                        assert forall|w: ConcreteValue|
                            kind_matches(kind, &w) && b@ == #[trigger] payload_of(&w) implies
                            cv_eq_spec(&v, &w) by {
                            assert(b@ == text_payload(w->Text_0@));
                        }
                    }
                    Ok(v)
                },
                Err(e) => {
                    proof {
                        assert forall|w: ConcreteValue|
                            kind_matches(kind, &w) && b@ == #[trigger] payload_of(&w) implies
                            false by {
                            assert(b@ == text_payload(w->Text_0@));
                            assert(vstd::utf8::encode_utf8(w->Text_0@).len() + 8 == n);
                            lemma_text_encode_wf(w->Text_0@, b@);
                        }
                    }
                    Err(e)
                },
            }
        },
        ValueKind::IntList => {
            match de_intlist(b) {
                Ok(l) => {
                    let v = ConcreteValue::IntList(l);
                    proof {
                        lemma_intlist_decode_exact(b@, v->IntList_0@);
                        assert forall|w: ConcreteValue|
                            kind_matches(kind, &w) && b@ == #[trigger] payload_of(&w) implies
                            cv_eq_spec(&v, &w) by {
                            assert(b@ == intlist_payload(w->IntList_0@));
                            lemma_ints_le_len(w->IntList_0@);
                            assert(w->IntList_0@.len() <= u64::MAX);
                        }
                    }
                    Ok(v)
                },
                Err(e) => {
                    proof {
                        assert forall|w: ConcreteValue|
                            kind_matches(kind, &w) && b@ == #[trigger] payload_of(&w) implies
                            false by {
                            assert(b@ == intlist_payload(w->IntList_0@));
                            lemma_ints_le_len(w->IntList_0@);
                            assert(w->IntList_0@.len() <= u64::MAX);
                            lemma_intlist_encode_wf(w->IntList_0@, b@);
                        }
                    }
                    Err(e)
                },
            }
        },
        ValueKind::Entries => {
            match de_entries(b) {
                Ok(es) => {
                    let v = ConcreteValue::Entries(es);
                    proof {
                        assert forall|w: ConcreteValue|
                            kind_matches(kind, &w) && b@ == #[trigger] payload_of(&w) implies
                            cv_eq_spec(&v, &w) by {
                            assert(b@ == entries_payload(w->Entries_0@));
                        }
                    }
                    Ok(v)
                },
                Err(e) => {
                    proof {
                        assert forall|w: ConcreteValue|
                            kind_matches(kind, &w) && b@ == #[trigger] payload_of(&w) implies
                            false by {
                            assert(b@ == entries_payload(w->Entries_0@));
                        }
                    }
                    Err(e)
                },
            }
        },
        ValueKind::Record(name, arity) => {
            match decode_record_fields(b, *arity) {
                Ok(fields) => {
                    let v = ConcreteValue::Record(name.clone(), fields);
                    proof {
                        assert(is_prefix_of(payload_of(&v), b@)) by {
                            assert(b@.subrange(0, b@.len() as int) =~= b@);
                        }
                        assert forall|w: ConcreteValue|
                            kind_matches(kind, &w) && b@ == #[trigger] payload_of(&w) implies
                            cv_eq_spec(&v, &w) by {
                            lemma_ints_le_injective(v->Record_1@, w->Record_1@);
                        }
                    }
                    Ok(v)
                },
                Err(e) => {
                    proof {
                        assert forall|w: ConcreteValue|
                            kind_matches(kind, &w) && b@ == #[trigger] payload_of(&w) implies
                            false by {
                            lemma_ints_le_len(w->Record_1@);
                        }
                    }
                    Err(e)
                },
            }
        },
        ValueKind::Raw => {
            let copy = vstd::slice::slice_to_vec(b);
            let v = ConcreteValue::Raw(copy);
            proof {
                assert(is_prefix_of(payload_of(&v), b@)) by {
                    assert(b@.subrange(0, b@.len() as int) =~= b@);
                }
            }
            Ok(v)
        },
    }
}

/// The text payload of any character sequence is well formed and
/// decodes back to that sequence.
proof fn lemma_text_encode_wf(s: Seq<char>, b: Seq<u8>)
    requires
        b == text_payload(s),
        vstd::utf8::encode_utf8(s).len() <= u64::MAX,
    ensures
        text_wf(b),
        text_chars(b) == s,
{
    let e = vstd::utf8::encode_utf8(s);
    assert(b.subrange(0, 8) =~= u64_le(e.len() as u64));
    lemma_u64_le_roundtrip(e.len() as u64);
    assert(text_len_of(b) == e.len());
    assert(b.subrange(8, 8 + e.len() as int) =~= e);
    vstd::utf8::encode_utf8_valid_utf8(s);
    vstd::utf8::encode_utf8_decode_utf8(s);
}

/// A successful text decode pins the prefix the codec consumed: it
/// is the canonical text payload of the decoded characters.
proof fn lemma_text_decode_exact(b: Seq<u8>, s: Seq<char>)
    requires
        text_wf(b),
        s == text_chars(b),
        b.len() <= u64::MAX,
    ensures
        is_prefix_of(text_payload(s), b),
        forall|w: Seq<char>| b == #[trigger] text_payload(w) ==> s == w,
{
    let raw = b.subrange(8, 8 + text_len_of(b) as int);
    vstd::utf8::decode_utf8_encode_utf8(raw);
    assert(vstd::utf8::encode_utf8(s) == raw);
    lemma_u64_le_of_le(b.subrange(0, 8));
    assert(text_len_of(b) as int == raw.len());
    assert(raw.len() as u64 == text_len_of(b));
    assert(u64_le(raw.len() as u64) =~= b.subrange(0, 8));
    assert(text_payload(s).len() == 8 + raw.len());
    assert(b.subrange(0, 8 + raw.len() as int) =~= u64_le(raw.len() as u64) + raw);
    assert(is_prefix_of(text_payload(s), b));
    assert forall|w: Seq<char>| b == #[trigger] text_payload(w) implies s == w by {
        assert(vstd::utf8::encode_utf8(w).len() + 8 == b.len());
        lemma_text_encode_wf(w, b);
    }
}

/// The list payload of any integer sequence is well formed and
/// decodes back to that sequence.
proof fn lemma_intlist_encode_wf(l: Seq<i64>, b: Seq<u8>)
    requires
        b == intlist_payload(l),
        l.len() <= u64::MAX,
    ensures
        intlist_wf(b),
        count_of(b) == l.len(),
        b.subrange(8, 8 + 8 * (count_of(b) as int)) == ints_le(l),
{
    lemma_ints_le_len(l);
    assert(b.subrange(0, 8) =~= u64_le(l.len() as u64));
    lemma_u64_le_roundtrip(l.len() as u64);
    assert(b.subrange(8, 8 + 8 * (l.len() as int)) =~= ints_le(l));
}

/// A successful list decode pins the prefix the codec consumed: it
/// is the canonical list payload of the decoded elements.
proof fn lemma_intlist_decode_exact(b: Seq<u8>, l: Seq<i64>)
    requires
        intlist_wf(b),
        l.len() == count_of(b),
        ints_le(l) == b.subrange(8, 8 + 8 * (count_of(b) as int)),
    ensures
        is_prefix_of(intlist_payload(l), b),
        forall|w: Seq<i64>| b == #[trigger] intlist_payload(w) && w.len() <= u64::MAX ==> l == w,
{
    lemma_ints_le_len(l);
    lemma_u64_le_of_le(b.subrange(0, 8));
    assert(l.len() as u64 == count_of(b));
    assert(u64_le(l.len() as u64) =~= b.subrange(0, 8));
    assert(b.subrange(0, 8 + 8 * (l.len() as int)) =~= u64_le(l.len() as u64) + ints_le(l));
    assert(is_prefix_of(intlist_payload(l), b));
    assert forall|w: Seq<i64>| b == #[trigger] intlist_payload(w) && w.len() <= u64::MAX implies l
        == w by {
        lemma_intlist_encode_wf(w, b);
        lemma_ints_le_injective(l, w);
    }
}

} // verus!
