//! Rendering values as text without forcing hydration.
//!
//! A lazy value renders as `Lazy<name>(size: N bytes)` from its
//! header fields alone — displaying never decodes. Eager values of a
//! few well-known primitive shapes render themselves; everything
//! else renders as a category tag around the type name.

use vstd::prelude::*;
use vstd::string::StrSliceExecFns;
use vstd::utf8::{
    decode_utf8, encode_utf8, encode_utf8_decode_utf8, encode_utf8_valid_utf8, is_ascii_chars,
    is_ascii_chars_encode_utf8, valid_utf8,
};

use crate::arc_value::ArcValueType;
use crate::cell::ErasedArc;
use crate::codec::string_from_utf8;
use crate::value::{value_name_spec, ConcreteValue, ValueCategory};

verus! {

/// The character of one decimal digit.
pub open spec fn digit_char(d: int) -> char {
    if d == 0 {
        '0'
    } else if d == 1 {
        '1'
    } else if d == 2 {
        '2'
    } else if d == 3 {
        '3'
    } else if d == 4 {
        '4'
    } else if d == 5 {
        '5'
    } else if d == 6 {
        '6'
    } else if d == 7 {
        '7'
    } else if d == 8 {
        '8'
    } else {
        '9'
    }
}

/// The decimal digits of a natural number, most significant first.
pub open spec fn dec_chars(n: nat) -> Seq<char>
    decreases n,
{
    if n < 10 {
        seq![digit_char(n as int)]
    } else {
        dec_chars(n / 10).push(digit_char((n % 10) as int))
    }
}

/// The ASCII bytes of the decimal digits of a natural number.
pub open spec fn dec_bytes(n: nat) -> Seq<u8>
    decreases n,
{
    if n < 10 {
        seq![(48 + n) as u8]
    } else {
        dec_bytes(n / 10).push((48 + n % 10) as u8)
    }
}

/// The digit bytes are the UTF-8 encoding of the digit characters.
proof fn lemma_dec_repr(n: nat)
    ensures
        dec_chars(n).len() == dec_bytes(n).len(),
        dec_chars(n).len() >= 1,
        is_ascii_chars(dec_chars(n)),
        encode_utf8(dec_chars(n)) == dec_bytes(n),
        valid_utf8(dec_bytes(n)),
        decode_utf8(dec_bytes(n)) == dec_chars(n),
    decreases n,
{
    if n < 10 {
        assert(is_ascii_chars(dec_chars(n)));
        is_ascii_chars_encode_utf8(dec_chars(n));
        assert(dec_chars(n)[0] as u8 == (48 + n) as u8);
        assert(encode_utf8(dec_chars(n)) =~= dec_bytes(n));
    } else {
        lemma_dec_repr(n / 10);
        let head = dec_chars(n / 10);
        let full = dec_chars(n);
        assert(full == head.push(digit_char((n % 10) as int)));
        assert forall|i| 0 <= i < full.len() implies '\0' <= #[trigger] full[i] <= '\u{7f}' by {
            if i < head.len() {
                assert(full[i] == head[i]);
            } else {
                assert(full[i] == digit_char((n % 10) as int));
            }
        }
        is_ascii_chars_encode_utf8(full);
        assert forall|i: int| 0 <= i < full.len() implies encode_utf8(full)[i] == dec_bytes(n)[i]
            by {
            is_ascii_chars_encode_utf8(head);
            if i < head.len() {
                assert(dec_bytes(n)[i] == dec_bytes(n / 10)[i]);
                assert(full[i] == head[i]);
            } else {
                assert(full[i] == digit_char((n % 10) as int));
                assert(dec_bytes(n)[i] == (48 + n % 10) as u8);
            }
        }
        assert(encode_utf8(full) =~= dec_bytes(n));
    }
    encode_utf8_valid_utf8(dec_chars(n));
    encode_utf8_decode_utf8(dec_chars(n));
}

/// Encoding distributes over concatenation of character sequences.
pub proof fn lemma_encode_utf8_concat(a: Seq<char>, b: Seq<char>)
    ensures
        encode_utf8(a + b) == encode_utf8(a) + encode_utf8(b),
    decreases a.len(),
{
    if a.len() == 0 {
        assert(a + b =~= b);
        assert(encode_utf8(a) =~= Seq::<u8>::empty());
        assert(encode_utf8(a) + encode_utf8(b) =~= encode_utf8(b));
    } else {
        assert((a + b)[0] == a[0]);
        assert((a + b).drop_first() =~= a.drop_first() + b);
        lemma_encode_utf8_concat(a.drop_first(), b);
        assert(encode_utf8(a + b) =~= encode_utf8(a) + encode_utf8(b));
    }
}

/// Append the decimal digit bytes of `n`.
fn push_dec_bytes(n: u64, out: &mut Vec<u8>)
    ensures
        final(out)@ == old(out)@ + dec_bytes(n as nat),
    decreases n,
{
    if n < 10 {
        out.push(48 + (n as u8));
        proof {
            assert(final(out)@ =~= old(out)@ + dec_bytes(n as nat));
        }
    } else {
        push_dec_bytes(n / 10, out);
        out.push(48 + ((n % 10) as u8));
        proof {
            assert(final(out)@ =~= old(out)@ + dec_bytes(n as nat));
        }
    }
}

/// Append the UTF-8 bytes of `s`.
pub(crate) fn push_str_bytes(s: &str, out: &mut Vec<u8>)
    ensures
        final(out)@ == old(out)@ + encode_utf8(s@),
{
    let mut b = s.as_bytes_vec();
    out.append(&mut b);
}

/// The decimal rendering of an unsigned 64-bit number.
pub fn u64_to_string(n: u64) -> (r: String)
    ensures
        r@ == dec_chars(n as nat),
{
    let mut out: Vec<u8> = Vec::new();
    push_dec_bytes(n, &mut out);
    proof {
        lemma_dec_repr(n as nat);
        assert(out@ =~= dec_bytes(n as nat));
    }
    match string_from_utf8(out) {
        Some(s) => s,
        None => {
            proof {
                assert(false);
            }
            String::new()
        },
    }
}

/// The decimal rendering of a signed 64-bit number, with a leading
/// minus sign when negative.
pub open spec fn i64_chars(v: i64) -> Seq<char> {
    if v >= 0 {
        dec_chars(v as nat)
    } else {
        seq!['-'] + dec_chars((-(v as int)) as nat)
    }
}

/// Append the decimal rendering of a signed number.
fn push_i64_bytes(v: i64, out: &mut Vec<u8>)
    ensures
        final(out)@ == old(out)@ + encode_utf8(i64_chars(v)),
{
    if v >= 0 {
        proof {
            lemma_dec_repr(v as nat);
        }
        push_dec_bytes(v as u64, out);
    } else {
        let magnitude: u64 = ((-(v + 1)) as u64) + 1;
        proof {
            assert(magnitude == -(v as int));
        }
        out.push(45);
        push_dec_bytes(magnitude, out);
        proof {
            lemma_dec_repr(magnitude as nat);
            assert(is_ascii_chars(i64_chars(v))) by {
                assert forall|i| 0 <= i < i64_chars(v).len() implies '\0' <= #[trigger] i64_chars(
                    v,
                )[i] <= '\u{7f}' by {
                    if i > 0 {
                        assert(i64_chars(v)[i] == dec_chars(magnitude as nat)[i - 1]);
                    }
                }
            }
            is_ascii_chars_encode_utf8(i64_chars(v));
            is_ascii_chars_encode_utf8(dec_chars(magnitude as nat));
            assert(encode_utf8(i64_chars(v)) =~= seq![45u8] + dec_bytes(magnitude as nat)) by {
                assert(i64_chars(v)[0] == '-');
                assert('-' as u8 == 45);
                assert forall|i: int| 0 <= i < i64_chars(v).len() implies encode_utf8(
                    i64_chars(v),
                )[i] == (seq![45u8] + dec_bytes(magnitude as nat))[i] by {
                    if i > 0 {
                        assert(i64_chars(v)[i] == dec_chars(magnitude as nat)[i - 1]);
                    }
                }
            }
            assert(final(out)@ =~= old(out)@ + encode_utf8(i64_chars(v)));
        }
    }
}

/// What a value renders as.
pub open spec fn display_spec(v: &ArcValueType) -> Seq<char> {
    match &v.value {
        None => if v.category == ValueCategory::Null {
            "null"@
        } else {
            "Invalid"@
        },
        Some(ErasedArc::Lazy(l)) => "Lazy<"@ + l.type_label@ + ">(size: "@ + dec_chars(
            l.payload().len(),
        ) + " bytes)"@,
        Some(ErasedArc::Eager(a)) => match v.category {
            ValueCategory::Null => "null"@,
            ValueCategory::Primitive => match **a {
                ConcreteValue::Text(s) => "\""@ + s@ + "\""@,
                ConcreteValue::I64(x) => i64_chars(x),
                ConcreteValue::Bool(x) => if x {
                    "true"@
                } else {
                    "false"@
                },
                _ => "Primitive<"@ + value_name_spec(a) + ">"@,
            },
            ValueCategory::List => "List<"@ + value_name_spec(a) + ">"@,
            ValueCategory::Mapping => "Map<"@ + value_name_spec(a) + ">"@,
            ValueCategory::Struct => "Struct<"@ + value_name_spec(a) + ">"@,
            ValueCategory::Bytes => match **a {
                ConcreteValue::Raw(b) => "Bytes(size: "@ + dec_chars(b@.len()) + " bytes)"@,
                _ => "Bytes<"@ + value_name_spec(a) + ">"@,
            },
        },
    }
}

/// Build a string from UTF-8 bytes known to encode `chars`.
pub(crate) fn finish(out: Vec<u8>, Ghost(chars): Ghost<Seq<char>>) -> (r: String)
    requires
        out@ == encode_utf8(chars),
    ensures
        r@ == chars,
{
    proof {
        encode_utf8_valid_utf8(chars);
        encode_utf8_decode_utf8(chars);
    }
    match string_from_utf8(out) {
        Some(s) => s,
        None => {
            proof {
                assert(false);
            }
            String::new()
        },
    }
}

impl ArcValueType {
    /// Render the value as text. A lazy value renders from its
    /// header fields alone: displaying never forces hydration.
    pub fn display_string(&self) -> (r: String)
        requires
            self.wf(),
        ensures
            r@ == display_spec(self),
    {
        match &self.value {
            None => {
                if matches!(self.category, ValueCategory::Null) {
                    "null".to_owned()
                } else {
                    "Invalid".to_owned()
                }
            },
            Some(ErasedArc::Lazy(l)) => {
                let mut out: Vec<u8> = Vec::new();
                push_str_bytes("Lazy<", &mut out);
                push_str_bytes(l.type_label.as_str(), &mut out);
                push_str_bytes(">(size: ", &mut out);
                let size = l.data_len();
                proof {
                    lemma_dec_repr(size as nat);
                }
                push_dec_bytes(size as u64, &mut out);
                push_str_bytes(" bytes)", &mut out);
                proof {
                    lemma_display_lazy_concat(l.type_label@, size as nat);
                }
                finish(
                    out,
                    Ghost(
                        "Lazy<"@ + l.type_label@ + ">(size: "@ + dec_chars(l.payload().len())
                            + " bytes)"@,
                    ),
                )
            },
            Some(ErasedArc::Eager(a)) => {
                match self.category {
                    ValueCategory::Null => "null".to_owned(),
                    ValueCategory::Primitive => {
                        match &**a {
                            ConcreteValue::Text(s) => {
                                let mut out: Vec<u8> = Vec::new();
                                push_str_bytes("\"", &mut out);
                                push_str_bytes(s.as_str(), &mut out);
                                push_str_bytes("\"", &mut out);
                                proof {
                                    lemma_encode_utf8_concat("\""@, s@);
                                    lemma_encode_utf8_concat("\""@ + s@, "\""@);
                                }
                                finish(out, Ghost("\""@ + s@ + "\""@))
                            },
                            ConcreteValue::I64(x) => {
                                let mut out: Vec<u8> = Vec::new();
                                push_i64_bytes(*x, &mut out);
                                finish(out, Ghost(i64_chars(*x)))
                            },
                            ConcreteValue::Bool(x) => {
                                if *x {
                                    "true".to_owned()
                                } else {
                                    "false".to_owned()
                                }
                            },
                            _ => tag_around("Primitive<", a, ">"),
                        }
                    },
                    ValueCategory::List => tag_around("List<", a, ">"),
                    ValueCategory::Mapping => tag_around("Map<", a, ">"),
                    ValueCategory::Struct => tag_around("Struct<", a, ">"),
                    ValueCategory::Bytes => {
                        match &**a {
                            ConcreteValue::Raw(b) => {
                                let mut out: Vec<u8> = Vec::new();
                                push_str_bytes("Bytes(size: ", &mut out);
                                let size = b.len();
                                proof {
                                    lemma_dec_repr(size as nat);
                                }
                                push_dec_bytes(size as u64, &mut out);
                                push_str_bytes(" bytes)", &mut out);
                                proof {
                                    lemma_encode_utf8_concat("Bytes(size: "@, dec_chars(
                                        size as nat,
                                    ));
                                    lemma_encode_utf8_concat(
                                        "Bytes(size: "@ + dec_chars(size as nat),
                                        " bytes)"@,
                                    );
                                }
                                finish(
                                    out,
                                    Ghost("Bytes(size: "@ + dec_chars(b@.len()) + " bytes)"@),
                                )
                            },
                            _ => tag_around("Bytes<", a, ">"),
                        }
                    },
                }
            },
        }
    }
}

/// Render `<prefix><type name><suffix>`.
fn tag_around(prefix: &str, v: &ConcreteValue, suffix: &str) -> (r: String)
    ensures
        r@ == prefix@ + value_name_spec(v) + suffix@,
{
    let name = v.type_label();
    let mut out: Vec<u8> = Vec::new();
    push_str_bytes(prefix, &mut out);
    push_str_bytes(name.as_str(), &mut out);
    push_str_bytes(suffix, &mut out);
    proof {
        lemma_encode_utf8_concat(prefix@, value_name_spec(v));
        lemma_encode_utf8_concat(prefix@ + value_name_spec(v), suffix@);
    }
    finish(out, Ghost(prefix@ + value_name_spec(v) + suffix@))
}

/// The byte assembly of the lazy rendering matches its characters.
proof fn lemma_display_lazy_concat(label: Seq<char>, size: nat)
    ensures
        encode_utf8("Lazy<"@ + label + ">(size: "@ + dec_chars(size) + " bytes)"@) == encode_utf8(
            "Lazy<"@,
        ) + encode_utf8(label) + encode_utf8(">(size: "@) + dec_bytes(size) + encode_utf8(
            " bytes)"@,
        ),
{
    lemma_dec_repr(size);
    lemma_encode_utf8_concat("Lazy<"@, label);
    lemma_encode_utf8_concat("Lazy<"@ + label, ">(size: "@);
    lemma_encode_utf8_concat("Lazy<"@ + label + ">(size: "@, dec_chars(size));
    lemma_encode_utf8_concat("Lazy<"@ + label + ">(size: "@ + dec_chars(size), " bytes)"@);
}

} // verus!
