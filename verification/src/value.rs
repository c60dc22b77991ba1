//! The closed world of concrete values the engine can carry, the
//! category tags used for cheap dispatch, and the kind descriptors
//! the registry hands out as codecs.

use vstd::prelude::*;

verus! {

/// Categorizes a value for efficient dispatch without decoding.
#[derive(Debug, Clone, Copy, PartialEq, Eq, Structural)]
pub enum ValueCategory {
    Primitive,
    List,
    Mapping,
    Struct,
    Null,
    /// Raw bytes, carried without any registry involvement.
    Bytes,
}

/// A concrete, fully decoded value. The engine is generic over this
/// closed set of shapes: every registered type stores and transports
/// one of them.
#[derive(Debug, PartialEq)]
pub enum ConcreteValue {
    /// A 64-bit signed integer.
    I64(i64),
    /// A boolean.
    Bool(bool),
    /// A text string.
    Text(String),
    /// A list of 64-bit integers.
    IntList(Vec<i64>),
    /// Named entries of a mapping, in insertion order.
    Entries(Vec<(String, i64)>),
    /// A user struct: its registered type name and its 64-bit fields
    /// in declaration order.
    Record(String, Vec<i64>),
    /// A raw byte buffer.
    Raw(Vec<u8>),
}

/// A codec descriptor: which concrete shape a registered type name
/// serializes to and deserializes from.
#[derive(Debug, PartialEq)]
pub enum ValueKind {
    I64,
    Bool,
    Text,
    IntList,
    Entries,
    /// A user struct kind: its canonical type name and field count.
    Record(String, usize),
    Raw,
}

/// True when the concrete value `v` has exactly the shape `k`
/// describes (the dynamic-type check of a downcast).
pub open spec fn kind_matches(k: &ValueKind, v: &ConcreteValue) -> bool {
    match (k, v) {
        (ValueKind::I64, ConcreteValue::I64(_)) => true,
        (ValueKind::Bool, ConcreteValue::Bool(_)) => true,
        (ValueKind::Text, ConcreteValue::Text(_)) => true,
        (ValueKind::IntList, ConcreteValue::IntList(_)) => true,
        (ValueKind::Entries, ConcreteValue::Entries(_)) => true,
        (ValueKind::Record(kn, arity), ConcreteValue::Record(vn, fields)) => {
            kn@ == vn@ && *arity == fields@.len()
        },
        (ValueKind::Raw, ConcreteValue::Raw(_)) => true,
        _ => false,
    }
}

/// Two kind descriptors describe the same codec.
pub open spec fn kinds_eq(a: &ValueKind, b: &ValueKind) -> bool {
    match (a, b) {
        (ValueKind::I64, ValueKind::I64) => true,
        (ValueKind::Bool, ValueKind::Bool) => true,
        (ValueKind::Text, ValueKind::Text) => true,
        (ValueKind::IntList, ValueKind::IntList) => true,
        (ValueKind::Entries, ValueKind::Entries) => true,
        (ValueKind::Record(an, aa), ValueKind::Record(bn, ba)) => an@ == bn@ && aa == ba,
        (ValueKind::Raw, ValueKind::Raw) => true,
        _ => false,
    }
}

/// The canonical type name of a kind: the registry key its values
/// serialize under, and the name written into the wire header.
pub open spec fn kind_name_spec(k: &ValueKind) -> Seq<char> {
    match k {
        ValueKind::I64 => "i64"@,
        ValueKind::Bool => "bool"@,
        ValueKind::Text => "alloc::string::String"@,
        ValueKind::IntList => "alloc::vec::Vec<i64>"@,
        ValueKind::Entries => "std::collections::HashMap<String, i64>"@,
        ValueKind::Record(n, _) => n@,
        ValueKind::Raw => ""@,
    }
}

/// The canonical type name of a concrete value (its dynamic type).
pub open spec fn value_name_spec(v: &ConcreteValue) -> Seq<char> {
    match v {
        ConcreteValue::I64(_) => "i64"@,
        ConcreteValue::Bool(_) => "bool"@,
        ConcreteValue::Text(_) => "alloc::string::String"@,
        ConcreteValue::IntList(_) => "alloc::vec::Vec<i64>"@,
        ConcreteValue::Entries(_) => "std::collections::HashMap<String, i64>"@,
        ConcreteValue::Record(n, _) => n@,
        ConcreteValue::Raw(_) => ""@,
    }
}

/// Entry sequences are equal: same length, and pairwise equal keys
/// and values.
pub open spec fn entries_eq_spec(a: Seq<(String, i64)>, b: Seq<(String, i64)>) -> bool {
    a.len() == b.len() && forall|i: int|
        0 <= i < a.len() ==> (#[trigger] a[i]).0@ == b[i].0@ && a[i].1 == b[i].1
}

/// Entry-sequence equality is transitive.
pub proof fn lemma_entries_eq_transitive(
    a: Seq<(String, i64)>,
    b: Seq<(String, i64)>,
    c: Seq<(String, i64)>,
)
    requires
        entries_eq_spec(a, b),
        entries_eq_spec(b, c),
    ensures
        entries_eq_spec(a, c),
{
    assert forall|i: int| 0 <= i < a.len() implies (#[trigger] a[i]).0@ == c[i].0@ && a[i].1
        == c[i].1 by {
        assert((a[i]).0@ == b[i].0@ && a[i].1 == b[i].1);
        assert((b[i]).0@ == c[i].0@ && b[i].1 == c[i].1);
    }
}

/// Type-aware deep equality of concrete values: the dynamic types
/// agree and the underlying data compares equal.
pub open spec fn cv_eq_spec(a: &ConcreteValue, b: &ConcreteValue) -> bool {
    match (a, b) {
        (ConcreteValue::I64(x), ConcreteValue::I64(y)) => x == y,
        (ConcreteValue::Bool(x), ConcreteValue::Bool(y)) => x == y,
        (ConcreteValue::Text(x), ConcreteValue::Text(y)) => x@ == y@,
        (ConcreteValue::IntList(x), ConcreteValue::IntList(y)) => x@ == y@,
        (ConcreteValue::Entries(x), ConcreteValue::Entries(y)) => entries_eq_spec(x@, y@),
        (ConcreteValue::Record(xn, xf), ConcreteValue::Record(yn, yf)) => {
            xn@ == yn@ && xf@ == yf@
        },
        (ConcreteValue::Raw(x), ConcreteValue::Raw(y)) => x@ == y@,
        _ => false,
    }
}

impl ValueKind {
    /// The canonical type name of this kind, as a fresh string.
    pub fn canonical_name(&self) -> (r: String)
        ensures
            r@ == kind_name_spec(self),
    {
        match self {
            ValueKind::I64 => "i64".to_owned(),
            ValueKind::Bool => "bool".to_owned(),
            ValueKind::Text => "alloc::string::String".to_owned(),
            ValueKind::IntList => "alloc::vec::Vec<i64>".to_owned(),
            ValueKind::Entries => "std::collections::HashMap<String, i64>".to_owned(),
            ValueKind::Record(n, _) => n.clone(),
            ValueKind::Raw => "".to_owned(),
        }
    }

    /// The category a value of this kind belongs to.
    pub fn category(&self) -> (c: ValueCategory)
        ensures
            c == self.category_spec(),
    {
        match self {
            ValueKind::I64 => ValueCategory::Primitive,
            ValueKind::Bool => ValueCategory::Primitive,
            ValueKind::Text => ValueCategory::Primitive,
            ValueKind::IntList => ValueCategory::List,
            ValueKind::Entries => ValueCategory::Mapping,
            ValueKind::Record(_, _) => ValueCategory::Struct,
            ValueKind::Raw => ValueCategory::Bytes,
        }
    }

    /// The category a value of this kind belongs to.
    pub open spec fn category_spec(&self) -> ValueCategory {
        match self {
            ValueKind::I64 => ValueCategory::Primitive,
            ValueKind::Bool => ValueCategory::Primitive,
            ValueKind::Text => ValueCategory::Primitive,
            ValueKind::IntList => ValueCategory::List,
            ValueKind::Entries => ValueCategory::Mapping,
            ValueKind::Record(_, _) => ValueCategory::Struct,
            ValueKind::Raw => ValueCategory::Bytes,
        }
    }
}

impl Clone for ValueKind {
    /// Clones preserve the descriptor exactly.
    fn clone(&self) -> (r: Self)
        ensures
            kinds_eq(&r, self),
    {
        match self {
            ValueKind::I64 => ValueKind::I64,
            ValueKind::Bool => ValueKind::Bool,
            ValueKind::Text => ValueKind::Text,
            ValueKind::IntList => ValueKind::IntList,
            ValueKind::Entries => ValueKind::Entries,
            ValueKind::Record(n, a) => ValueKind::Record(n.clone(), *a),
            ValueKind::Raw => ValueKind::Raw,
        }
    }
}

impl ConcreteValue {
    /// The kind this value downcasts to.
    pub fn kind(&self) -> (k: ValueKind)
        ensures
            kind_matches(&k, self),
            kind_name_spec(&k) == value_name_spec(self),
    {
        match self {
            ConcreteValue::I64(_) => ValueKind::I64,
            ConcreteValue::Bool(_) => ValueKind::Bool,
            ConcreteValue::Text(_) => ValueKind::Text,
            ConcreteValue::IntList(_) => ValueKind::IntList,
            ConcreteValue::Entries(_) => ValueKind::Entries,
            ConcreteValue::Record(n, f) => ValueKind::Record(n.clone(), f.len()),
            ConcreteValue::Raw(_) => ValueKind::Raw,
        }
    }

    /// The canonical name of this value's dynamic type.
    pub fn type_label(&self) -> (r: String)
        ensures
            r@ == value_name_spec(self),
    {
        match self {
            ConcreteValue::I64(_) => "i64".to_owned(),
            ConcreteValue::Bool(_) => "bool".to_owned(),
            ConcreteValue::Text(_) => "alloc::string::String".to_owned(),
            ConcreteValue::IntList(_) => "alloc::vec::Vec<i64>".to_owned(),
            ConcreteValue::Entries(_) => "std::collections::HashMap<String, i64>".to_owned(),
            ConcreteValue::Record(n, _) => n.clone(),
            ConcreteValue::Raw(_) => "".to_owned(),
        }
    }
}

/// The executable downcast check: does `v` have the shape `k`
/// describes?
pub fn value_matches_kind(k: &ValueKind, v: &ConcreteValue) -> (r: bool)
    ensures
        r == kind_matches(k, v),
{
    match (k, v) {
        (ValueKind::I64, ConcreteValue::I64(_)) => true,
        (ValueKind::Bool, ConcreteValue::Bool(_)) => true,
        (ValueKind::Text, ConcreteValue::Text(_)) => true,
        (ValueKind::IntList, ConcreteValue::IntList(_)) => true,
        (ValueKind::Entries, ConcreteValue::Entries(_)) => true,
        (ValueKind::Record(kn, arity), ConcreteValue::Record(vn, fields)) => {
            kn.eq(vn) && *arity == fields.len()
        },
        (ValueKind::Raw, ConcreteValue::Raw(_)) => true,
        _ => false,
    }
}

/// Compare two entry vectors for deep equality.
fn entries_vec_eq(a: &Vec<(String, i64)>, b: &Vec<(String, i64)>) -> (r: bool)
    ensures
        r == entries_eq_spec(a@, b@),
{
    if a.len() != b.len() {
        return false;
    }
    let n = a.len();
    let mut i: usize = 0;
    while i < n
        invariant
            n == a.len() == b.len(),
            0 <= i <= n,
            forall|j: int| 0 <= j < i ==> (#[trigger] a@[j]).0@ == b@[j].0@ && a@[j].1 == b@[j].1,
        decreases n - i,
    {
        let pa = &a[i];
        let pb = &b[i];
        if !pa.0.eq(&pb.0) || pa.1 != pb.1 {
            return false;
        }
        i += 1;
    }
    true
}

/// Type-aware equality: only equal when the dynamic types agree and
/// the underlying values compare equal.
pub fn cv_eq(a: &ConcreteValue, b: &ConcreteValue) -> (r: bool)
    ensures
        r == cv_eq_spec(a, b),
{
    match (a, b) {
        (ConcreteValue::I64(x), ConcreteValue::I64(y)) => *x == *y,
        (ConcreteValue::Bool(x), ConcreteValue::Bool(y)) => *x == *y,
        (ConcreteValue::Text(x), ConcreteValue::Text(y)) => x.eq(y),
        (ConcreteValue::IntList(x), ConcreteValue::IntList(y)) => int_vec_eq(x, y),
        (ConcreteValue::Entries(x), ConcreteValue::Entries(y)) => entries_vec_eq(x, y),
        (ConcreteValue::Record(xn, xf), ConcreteValue::Record(yn, yf)) => {
            xn.eq(yn) && int_vec_eq(xf, yf)
        },
        (ConcreteValue::Raw(x), ConcreteValue::Raw(y)) => byte_vec_eq(x, y),
        _ => false,
    }
}

/// Compare two integer vectors elementwise.
fn int_vec_eq(a: &Vec<i64>, b: &Vec<i64>) -> (r: bool)
    ensures
        r == (a@ == b@),
{
    if a.len() != b.len() {
        proof {
            assert(a@ != b@);
        }
        return false;
    }
    let n = a.len();
    let mut i: usize = 0;
    while i < n
        invariant
            n == a.len() == b.len(),
            0 <= i <= n,
            forall|j: int| 0 <= j < i ==> a@[j] == b@[j],
        decreases n - i,
    {
        if a[i] != b[i] {
            proof {
                assert(a@ != b@);
            }
            return false;
        }
        i += 1;
    }
    proof {
        assert(a@ =~= b@);
    }
    true
}

/// Compare two byte slices elementwise.
pub fn byte_slice_eq(a: &[u8], b: &[u8]) -> (r: bool)
    ensures
        r == (a@ == b@),
{
    if a.len() != b.len() {
        proof {
            assert(a@ != b@);
        }
        return false;
    }
    let n = a.len();
    let mut i: usize = 0;
    while i < n
        invariant
            n == a@.len() == b@.len(),
            0 <= i <= n,
            forall|j: int| 0 <= j < i ==> a@[j] == b@[j],
        decreases n - i,
    {
        if *vstd::slice::slice_index_get(a, i) != *vstd::slice::slice_index_get(b, i) {
            proof {
                assert(a@ != b@);
            }
            return false;
        }
        i += 1;
    }
    proof {
        assert(a@ =~= b@);
    }
    true
}

/// Compare two byte vectors elementwise.
pub fn byte_vec_eq(a: &Vec<u8>, b: &Vec<u8>) -> (r: bool)
    ensures
        r == (a@ == b@),
{
    byte_slice_eq(a.as_slice(), b.as_slice())
}

/// Type-aware equality is reflexive.
pub proof fn lemma_cv_eq_reflexive(v: &ConcreteValue)
    ensures
        cv_eq_spec(v, v),
{
}

impl Clone for ConcreteValue {
    /// Clones are type-aware equal to the original.
    fn clone(&self) -> (r: Self)
        ensures
            cv_eq_spec(&r, self),
    {
        match self {
            ConcreteValue::I64(x) => ConcreteValue::I64(*x),
            ConcreteValue::Bool(x) => ConcreteValue::Bool(*x),
            ConcreteValue::Text(s) => ConcreteValue::Text(s.clone()),
            ConcreteValue::IntList(v) => ConcreteValue::IntList(clone_int_vec(v)),
            ConcreteValue::Entries(es) => ConcreteValue::Entries(clone_entries(es)),
            ConcreteValue::Record(n, f) => ConcreteValue::Record(n.clone(), clone_int_vec(f)),
            ConcreteValue::Raw(b) => ConcreteValue::Raw(clone_byte_vec(b)),
        }
    }
}

/// Copy an integer vector element by element.
pub fn clone_int_vec(v: &Vec<i64>) -> (r: Vec<i64>)
    ensures
        r@ == v@,
{
    let mut r: Vec<i64> = Vec::new();
    let n = v.len();
    let mut i: usize = 0;
    while i < n
        invariant
            n == v.len(),
            0 <= i <= n,
            r@ == v@.subrange(0, i as int),
        decreases n - i,
    {
        r.push(v[i]);
        i += 1;
        proof {
            assert(r@ =~= v@.subrange(0, i as int));
        }
    }
    proof {
        assert(r@ =~= v@);
    }
    r
}

/// Copy a byte vector element by element.
pub fn clone_byte_vec(v: &Vec<u8>) -> (r: Vec<u8>)
    ensures
        r@ == v@,
{
    let mut r: Vec<u8> = Vec::new();
    let n = v.len();
    let mut i: usize = 0;
    while i < n
        invariant
            n == v.len(),
            0 <= i <= n,
            r@ == v@.subrange(0, i as int),
        decreases n - i,
    {
        r.push(v[i]);
        i += 1;
        proof {
            assert(r@ =~= v@.subrange(0, i as int));
        }
    }
    proof {
        assert(r@ =~= v@);
    }
    r
}

/// Copy an entry vector pair by pair.
pub fn clone_entries(v: &Vec<(String, i64)>) -> (r: Vec<(String, i64)>)
    ensures
        entries_eq_spec(r@, v@),
{
    let mut r: Vec<(String, i64)> = Vec::new();
    let n = v.len();
    let mut i: usize = 0;
    while i < n
        invariant
            n == v.len(),
            0 <= i <= n,
            r@.len() == i,
            forall|j: int| 0 <= j < i ==> (#[trigger] r@[j]).0@ == v@[j].0@ && r@[j].1 == v@[j].1,
        decreases n - i,
    {
        let p = &v[i];
        r.push((p.0.clone(), p.1));
        i += 1;
    }
    r
}

} // verus!
