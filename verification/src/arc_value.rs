//! The public value handle: a category tag plus an optional
//! type-erased cell, with the typed accessors that drive hydration.
//!
//! Every accessor follows the same protocol: check the category
//! where one is owed, then downcast an eager cell directly, or
//! compare the declared type name of a lazy cell leniently, decode
//! its payload once, and memoize the eager result in place.

use std::sync::Arc;
use vstd::prelude::*;

use crate::cell::{arc_clone, cell_eq_spec, ErasedArc, LazyDataWithOffset};
use crate::codec::{count_of, decode_exact_kind, decode_ok_spec, decode_payload};
use crate::errors::ValueError;
use crate::names::{compare_type_names, names_compatible};
use crate::value::{
    cv_eq_spec, entries_eq_spec, kind_matches, kind_name_spec, value_matches_kind, ConcreteValue,
    ValueCategory, ValueKind,
};
use crate::wire::{
    entries_payload, intlist_payload, ints_le, is_prefix_of, lemma_entries_payload_congruent,
    lemma_ints_le_len, lemma_u64_le_roundtrip, payload_of, u64_le,
};
use crate::value::lemma_entries_eq_transitive;

verus! {

/// A type-erased value container with shared-ownership payloads.
#[derive(Debug)]
pub struct ArcValueType {
    /// Categorizes the value for dispatch.
    pub category: ValueCategory,
    /// The contained type-erased value; absent exactly for null
    /// values.
    pub value: Option<ErasedArc>,
}

impl ArcValueType {
    /// The container's invariant: whatever cell is present is well
    /// formed.
    pub open spec fn wf(&self) -> bool {
        match &self.value {
            Some(c) => c.wf(),
            None => true,
        }
    }

    /// No cell is present.
    pub open spec fn is_empty_cell(&self) -> bool {
        self.value is None
    }

    /// The cell is present and fully decoded.
    pub open spec fn is_eager(&self) -> bool {
        self.value matches Some(ErasedArc::Eager(_))
    }

    /// The cell is present and still defers its decode.
    pub open spec fn is_lazy(&self) -> bool {
        self.value matches Some(ErasedArc::Lazy(_))
    }

    /// The decoded value of an eager container.
    pub open spec fn eager_value(&self) -> ConcreteValue
        recommends
            self.is_eager(),
    {
        match &self.value {
            Some(ErasedArc::Eager(a)) => **a,
            _ => vstd::pervasive::arbitrary(),
        }
    }

    /// The deferred payload descriptor of a lazy container.
    pub open spec fn lazy_data(&self) -> LazyDataWithOffset
        recommends
            self.is_lazy(),
    {
        match &self.value {
            Some(ErasedArc::Lazy(l)) => *l,
            _ => vstd::pervasive::arbitrary(),
        }
    }

    /// Create a value from a cell and a category.
    pub fn new(value: ErasedArc, category: ValueCategory) -> (r: Self)
        requires
            value.wf(),
        ensures
            r.category == category,
            r.value matches Some(c) && c == value,
            r.wf(),
    {
        ArcValueType { category, value: Some(value) }
    }

    /// Create a primitive value (always eager).
    pub fn new_primitive(value: ConcreteValue) -> (r: Self)
        ensures
            r.category == ValueCategory::Primitive,
            r.is_eager() && r.eager_value() == value,
            r.wf(),
    {
        ArcValueType { category: ValueCategory::Primitive, value: Some(ErasedArc::new(value)) }
    }

    /// Create a struct value (always eager).
    pub fn from_struct(value: ConcreteValue) -> (r: Self)
        ensures
            r.category == ValueCategory::Struct,
            r.is_eager() && r.eager_value() == value,
            r.wf(),
    {
        ArcValueType { category: ValueCategory::Struct, value: Some(ErasedArc::new(value)) }
    }

    /// Create a list value from its elements (always eager).
    pub fn new_list(values: Vec<i64>) -> (r: Self)
        ensures
            r.category == ValueCategory::List,
            r.is_eager() && r.eager_value() == ConcreteValue::IntList(values),
            r.wf(),
    {
        ArcValueType {
            category: ValueCategory::List,
            value: Some(ErasedArc::new(ConcreteValue::IntList(values))),
        }
    }

    /// Create a list value from an existing vector.
    pub fn from_list(values: Vec<i64>) -> (r: Self)
        ensures
            r.category == ValueCategory::List,
            r.is_eager() && r.eager_value() == ConcreteValue::IntList(values),
            r.wf(),
    {
        Self::new_list(values)
    }

    /// Create a mapping value from its entries (always eager).
    pub fn new_map(entries: Vec<(String, i64)>) -> (r: Self)
        ensures
            r.category == ValueCategory::Mapping,
            r.is_eager() && r.eager_value() == ConcreteValue::Entries(entries),
            r.wf(),
    {
        ArcValueType {
            category: ValueCategory::Mapping,
            value: Some(ErasedArc::new(ConcreteValue::Entries(entries))),
        }
    }

    /// Create a mapping value from an existing entry vector.
    pub fn from_map(entries: Vec<(String, i64)>) -> (r: Self)
        ensures
            r.category == ValueCategory::Mapping,
            r.is_eager() && r.eager_value() == ConcreteValue::Entries(entries),
            r.wf(),
    {
        Self::new_map(entries)
    }

    /// Create a bytes value wrapping a raw buffer (always eager).
    pub fn new_bytes(bytes: Vec<u8>) -> (r: Self)
        ensures
            r.category == ValueCategory::Bytes,
            r.is_eager() && r.eager_value() == ConcreteValue::Raw(bytes),
            r.wf(),
    {
        ArcValueType {
            category: ValueCategory::Bytes,
            value: Some(ErasedArc::new(ConcreteValue::Raw(bytes))),
        }
    }

    /// Create a null value.
    pub fn null() -> (r: Self)
        ensures
            r.category == ValueCategory::Null,
            r.value is None,
            r.wf(),
    {
        ArcValueType { category: ValueCategory::Null, value: None }
    }

    /// Whether this is the null value.
    pub fn is_null(&self) -> (r: bool)
        ensures
            r == (self.value is None && self.category == ValueCategory::Null),
    {
        self.value.is_none() && matches!(self.category, ValueCategory::Null)
    }

    /// The typed accessor protocol, parameterized by the expected
    /// kind. An eager cell is downcast directly; a lazy cell is
    /// decoded once its declared name passes the lenient comparison,
    /// and the eager result replaces it in place. A decode failure
    /// discards the lazy data: the value is left empty.
    pub fn as_type_ref(&mut self, expected: &ValueKind) -> (r: Result<
        Arc<ConcreteValue>,
        ValueError,
    >)
        requires
            old(self).wf(),
        ensures
            final(self).wf(),
            final(self).category == old(self).category,
            old(self).is_empty_cell() ==> (r matches Err(e) && e == ValueError::CategoryMismatch
                && *final(self) == *old(self)),
            old(self).is_eager() ==> *final(self) == *old(self),
            old(self).is_eager() && kind_matches(expected, &old(self).eager_value()) ==> r is Ok,
            old(self).is_eager() && !kind_matches(expected, &old(self).eager_value()) ==> (
            r matches Err(e) && e == ValueError::TypeMismatch),
            old(self).is_lazy() && !names_compatible(
                kind_name_spec(expected),
                old(self).lazy_data().type_label@,
            ) ==> (r matches Err(e) && e == ValueError::TypeMismatch && *final(self) == *old(
                self,
            )),
            old(self).is_lazy() && names_compatible(
                kind_name_spec(expected),
                old(self).lazy_data().type_label@,
            ) ==> {
                &&& (r is Ok ==> is_prefix_of(
                    payload_of(&final(self).eager_value()),
                    old(self).lazy_data().payload(),
                ))
                &&& (r matches Err(e) ==> e == ValueError::DeserializationError
                    && final(self).value is None)
                &&& (decode_exact_kind(expected) ==> (r is Ok <==> decode_ok_spec(
                    expected,
                    old(self).lazy_data().payload(),
                )))
                &&& (forall|w: ConcreteValue|
                    kind_matches(expected, &w) && old(self).lazy_data().payload()
                        == #[trigger] payload_of(&w) ==> r is Ok && cv_eq_spec(
                        &final(self).eager_value(),
                        &w,
                    ))
                &&& (expected matches ValueKind::Entries ==> (forall|es: Seq<(String, i64)>|
                    old(self).lazy_data().payload() == #[trigger] entries_payload(es) ==> r is Ok
                        && (final(self).eager_value() matches ConcreteValue::Entries(stored)
                        && entries_eq_spec(stored@, es))))
            },
            r is Ok ==> final(self).is_eager() && r->Ok_0 == final(self).eager_value()
                && kind_matches(expected, &final(self).eager_value()),
    {
        let cell = match self.value.take() {
            Some(c) => c,
            None => {
                return Err(ValueError::CategoryMismatch);
            },
        };
        match cell {
            ErasedArc::Eager(a) => {
                let matched = value_matches_kind(expected, &*a);
                if matched {
                    let out = arc_clone(&a);
                    self.value = Some(ErasedArc::Eager(a));
                    Ok(out)
                } else {
                    self.value = Some(ErasedArc::Eager(a));
                    Err(ValueError::TypeMismatch)
                }
            },
            ErasedArc::Lazy(ld) => {
                let expected_name = expected.canonical_name();
                if !compare_type_names(expected_name.as_str(), ld.type_label.as_str()) {
                    self.value = Some(ErasedArc::Lazy(ld));
                    return Err(ValueError::TypeMismatch);
                }
                let decoded = decode_payload(expected, ld.payload_slice());
                match decoded {
                    Ok(v) => {
                        let a = Arc::new(v);
                        let out = arc_clone(&a);
                        self.value = Some(ErasedArc::Eager(a));
                        Ok(out)
                    },
                    Err(e) => {
                        // Decode failure is unrecoverable for this
                        // value: the lazy data stays discarded.
                        Err(e)
                    },
                }
            },
        }
    }

    /// Get the value as the expected kind, cloning it out.
    pub fn as_type(&mut self, expected: &ValueKind) -> (r: Result<ConcreteValue, ValueError>)
        requires
            old(self).wf(),
        ensures
            final(self).wf(),
            final(self).category == old(self).category,
            old(self).is_empty_cell() ==> (r matches Err(e) && e == ValueError::CategoryMismatch
                && *final(self) == *old(self)),
            old(self).is_eager() ==> *final(self) == *old(self),
            old(self).is_eager() && kind_matches(expected, &old(self).eager_value()) ==> r is Ok,
            old(self).is_eager() && !kind_matches(expected, &old(self).eager_value()) ==> (
            r matches Err(e) && e == ValueError::TypeMismatch),
            old(self).is_lazy() && !names_compatible(
                kind_name_spec(expected),
                old(self).lazy_data().type_label@,
            ) ==> (r matches Err(e) && e == ValueError::TypeMismatch && *final(self) == *old(
                self,
            )),
            old(self).is_lazy() && names_compatible(
                kind_name_spec(expected),
                old(self).lazy_data().type_label@,
            ) ==> {
                &&& (r is Ok ==> is_prefix_of(
                    payload_of(&final(self).eager_value()),
                    old(self).lazy_data().payload(),
                ))
                &&& (r matches Err(e) ==> e == ValueError::DeserializationError
                    && final(self).value is None)
                &&& (decode_exact_kind(expected) ==> (r is Ok <==> decode_ok_spec(
                    expected,
                    old(self).lazy_data().payload(),
                )))
                &&& (forall|w: ConcreteValue|
                    kind_matches(expected, &w) && old(self).lazy_data().payload()
                        == #[trigger] payload_of(&w) ==> r is Ok && cv_eq_spec(
                        &final(self).eager_value(),
                        &w,
                    ))
            },
            r matches Ok(v) ==> final(self).is_eager() && cv_eq_spec(
                &v,
                &final(self).eager_value(),
            ) && kind_matches(expected, &final(self).eager_value()),
    {
        match self.as_type_ref(expected) {
            Ok(a) => Ok((*a).clone()),
            Err(e) => Err(e),
        }
    }

    /// Get a list value's elements. Fails with a category mismatch
    /// unless the value has the list category; otherwise follows the
    /// accessor protocol for the integer-list kind.
    pub fn as_list_ref(&mut self) -> (r: Result<Vec<i64>, ValueError>)
        requires
            old(self).wf(),
        ensures
            final(self).wf(),
            final(self).category == old(self).category,
            old(self).category != ValueCategory::List ==> (r matches Err(e) && e
                == ValueError::CategoryMismatch && *final(self) == *old(self)),
            old(self).category == ValueCategory::List && old(self).is_empty_cell() ==> (
            r matches Err(e) && e == ValueError::CategoryMismatch && *final(self) == *old(self)),
            old(self).is_eager() ==> *final(self) == *old(self),
            r matches Ok(l) ==> final(self).is_eager() && (final(self).eager_value() matches
                ConcreteValue::IntList(stored) && stored@ == l@),
            old(self).category == ValueCategory::List && old(self).is_eager() && (old(
                self,
            ).eager_value() matches ConcreteValue::IntList(_)) ==> r is Ok,
            old(self).category == ValueCategory::List && old(self).is_eager() && !(old(
                self,
            ).eager_value() matches ConcreteValue::IntList(_)) ==> (r matches Err(e) && e
                == ValueError::TypeMismatch && *final(self) == *old(self)),
            old(self).category == ValueCategory::List && old(self).is_lazy()
                && !names_compatible(
                kind_name_spec(&ValueKind::IntList),
                old(self).lazy_data().type_label@,
            ) ==> (r matches Err(e) && e == ValueError::TypeMismatch && *final(self) == *old(
                self,
            )),
            old(self).category == ValueCategory::List && old(self).is_lazy() && names_compatible(
                kind_name_spec(&ValueKind::IntList),
                old(self).lazy_data().type_label@,
            ) ==> {
                &&& (r is Ok <==> decode_ok_spec(
                    &ValueKind::IntList,
                    old(self).lazy_data().payload(),
                ))
                &&& (r matches Err(e) ==> e == ValueError::DeserializationError
                    && final(self).value is None)
                &&& (r matches Ok(l) ==> l@.len() == count_of(old(self).lazy_data().payload())
                    && ints_le(l@) == old(self).lazy_data().payload().subrange(
                    8,
                    8 + 8 * (count_of(old(self).lazy_data().payload()) as int),
                ))
            },
    {
        if !matches!(self.category, ValueCategory::List) {
            return Err(ValueError::CategoryMismatch);
        }
        match self.as_type_ref(&ValueKind::IntList) {
            Ok(a) => {
                match &*a {
                    ConcreteValue::IntList(l) => {
                        proof {
                            if old(self).is_lazy() {
                                let p = old(self).lazy_data().payload();
                                lemma_ints_le_len(l@);
                                let enc = intlist_payload(l@);
                                assert(p.subrange(0, enc.len() as int) == enc);
                                assert(p.subrange(0, 8) =~= enc.subrange(0, 8));
                                assert(enc.subrange(0, 8) =~= u64_le(l@.len() as u64));
                                lemma_u64_le_roundtrip(l@.len() as u64);
                                assert(count_of(p) == l@.len());
                                assert(p.subrange(8, 8 + 8 * (count_of(p) as int)) =~= enc.subrange(
                                    8,
                                    enc.len() as int,
                                ));
                                assert(enc.subrange(8, enc.len() as int) =~= ints_le(l@));
                            }
                        }
                        Ok(crate::value::clone_int_vec(l))
                    },
                    _ => {
                        proof {
                            assert(false);
                        }
                        Err(ValueError::TypeMismatch)
                    },
                }
            },
            Err(e) => Err(e),
        }
    }

    /// Get a mapping value's entries. Fails with a category mismatch
    /// unless the value has the mapping category; otherwise follows
    /// the accessor protocol for the entries kind.
    pub fn as_map_ref(&mut self) -> (r: Result<Vec<(String, i64)>, ValueError>)
        requires
            old(self).wf(),
        ensures
            final(self).wf(),
            final(self).category == old(self).category,
            old(self).category != ValueCategory::Mapping ==> (r matches Err(e) && e
                == ValueError::CategoryMismatch && *final(self) == *old(self)),
            old(self).category == ValueCategory::Mapping && old(self).is_empty_cell() ==> (
            r matches Err(e) && e == ValueError::CategoryMismatch && *final(self) == *old(self)),
            old(self).is_eager() ==> *final(self) == *old(self),
            r matches Ok(es) ==> final(self).is_eager() && (final(self).eager_value() matches
                ConcreteValue::Entries(stored) && entries_eq_spec(es@, stored@)),
            old(self).category == ValueCategory::Mapping && old(self).is_eager() && (old(
                self,
            ).eager_value() matches ConcreteValue::Entries(_)) ==> r is Ok,
            old(self).category == ValueCategory::Mapping && old(self).is_eager() && !(old(
                self,
            ).eager_value() matches ConcreteValue::Entries(_)) ==> (r matches Err(e) && e
                == ValueError::TypeMismatch && *final(self) == *old(self)),
            old(self).category == ValueCategory::Mapping && old(self).is_lazy()
                && !names_compatible(
                kind_name_spec(&ValueKind::Entries),
                old(self).lazy_data().type_label@,
            ) ==> (r matches Err(e) && e == ValueError::TypeMismatch && *final(self) == *old(
                self,
            )),
            old(self).category == ValueCategory::Mapping && old(self).is_lazy()
                && names_compatible(
                kind_name_spec(&ValueKind::Entries),
                old(self).lazy_data().type_label@,
            ) ==> (r matches Err(e) ==> e == ValueError::DeserializationError
                && final(self).value is None),
            old(self).category == ValueCategory::Mapping && old(self).is_lazy()
                && names_compatible(
                kind_name_spec(&ValueKind::Entries),
                old(self).lazy_data().type_label@,
            ) ==> (forall|es: Seq<(String, i64)>|
                old(self).lazy_data().payload() == #[trigger] entries_payload(es) ==> r is Ok
                    && entries_eq_spec(r->Ok_0@, es)),
            old(self).category == ValueCategory::Mapping && old(self).is_lazy()
                && names_compatible(
                kind_name_spec(&ValueKind::Entries),
                old(self).lazy_data().type_label@,
            ) ==> (r matches Ok(out) ==> is_prefix_of(
                entries_payload(out@),
                old(self).lazy_data().payload(),
            )),
    {
        if !matches!(self.category, ValueCategory::Mapping) {
            return Err(ValueError::CategoryMismatch);
        }
        match self.as_type_ref(&ValueKind::Entries) {
            Ok(a) => {
                match &*a {
                    ConcreteValue::Entries(es) => {
                        let out = crate::value::clone_entries(es);
                        proof {
                            if old(self).is_lazy() {
                                let p = old(self).lazy_data().payload();
                                let stored = self.eager_value()->Entries_0;
                                lemma_entries_payload_congruent(out@, stored@);
                                assert forall|w: Seq<(String, i64)>|
                                    p == #[trigger] entries_payload(w) implies entries_eq_spec(
                                    out@,
                                    w,
                                ) by {
                                    lemma_entries_eq_transitive(out@, stored@, w);
                                }
                            }
                        }
                        Ok(out)
                    },
                    _ => {
                        proof {
                            assert(false);
                        }
                        Err(ValueError::TypeMismatch)
                    },
                }
            },
            Err(e) => Err(e),
        }
    }

    /// Get a struct value's fields as the record type `name` with
    /// the given field count. Fails with a category mismatch unless
    /// the value has the struct category; otherwise follows the
    /// accessor protocol for that record kind.
    pub fn as_struct_ref(&mut self, name: &str, arity: usize) -> (r: Result<Vec<i64>, ValueError>)
        requires
            old(self).wf(),
        ensures
            final(self).wf(),
            final(self).category == old(self).category,
            old(self).category != ValueCategory::Struct ==> (r matches Err(e) && e
                == ValueError::CategoryMismatch && *final(self) == *old(self)),
            old(self).category == ValueCategory::Struct && old(self).is_empty_cell() ==> (
            r matches Err(e) && e == ValueError::CategoryMismatch && *final(self) == *old(self)),
            old(self).is_eager() ==> *final(self) == *old(self),
            r matches Ok(f) ==> f@.len() == arity,
            r matches Ok(f) ==> final(self).is_eager() && (final(self).eager_value() matches
                ConcreteValue::Record(stored_name, stored) && stored_name@ == name@ && stored@
                == f@),
            old(self).category == ValueCategory::Struct && old(self).is_eager() && (old(
                self,
            ).eager_value() matches ConcreteValue::Record(vn, vf) && vn@ == name@ && vf@.len()
                == arity) ==> r is Ok,
            old(self).category == ValueCategory::Struct && old(self).is_lazy()
                && !names_compatible(name@, old(self).lazy_data().type_label@) ==> (
            r matches Err(e) && e == ValueError::TypeMismatch && *final(self) == *old(self)),
            old(self).category == ValueCategory::Struct && old(self).is_lazy()
                && names_compatible(name@, old(self).lazy_data().type_label@) ==> {
                &&& (r is Ok <==> old(self).lazy_data().payload().len() == 8 * arity)
                &&& (r matches Err(e) ==> e == ValueError::DeserializationError
                    && final(self).value is None)
                &&& (r matches Ok(f) ==> ints_le(f@) == old(self).lazy_data().payload())
            },
    {
        if !matches!(self.category, ValueCategory::Struct) {
            return Err(ValueError::CategoryMismatch);
        }
        let kind = ValueKind::Record(name.to_owned(), arity);
        match self.as_type_ref(&kind) {
            Ok(a) => {
                match &*a {
                    ConcreteValue::Record(_, f) => {
                        proof {
                            if old(self).is_lazy() {
                                let p = old(self).lazy_data().payload();
                                lemma_ints_le_len(f@);
                                assert(p.subrange(0, p.len() as int) =~= p);
                                assert(ints_le(f@) == p);
                            }
                        }
                        Ok(crate::value::clone_int_vec(f))
                    },
                    _ => {
                        proof {
                            assert(false);
                        }
                        Err(ValueError::TypeMismatch)
                    },
                }
            },
            Err(e) => Err(e),
        }
    }
}

/// Equality of public value handles: categories first, then the
/// type-aware equality of the two cells; null equals null.
pub open spec fn value_eq_spec(a: &ArcValueType, b: &ArcValueType) -> bool {
    &&& a.category == b.category
    &&& match (&a.value, &b.value) {
        (Some(x), Some(y)) => cell_eq_spec(x, y),
        (None, None) => true,
        _ => false,
    }
}

impl PartialEq for ArcValueType {
    fn eq(&self, other: &Self) -> (r: bool) {
        if self.category != other.category {
            return false;
        }
        match (&self.value, &other.value) {
            (Some(x), Some(y)) => {
                if x.check_wf() && y.check_wf() {
                    x.eq_value(y)
                } else {
                    false
                }
            },
            (None, None) => true,
            _ => false,
        }
    }
}

impl vstd::std_specs::cmp::PartialEqSpecImpl for ArcValueType {
    open spec fn obeys_eq_spec() -> bool {
        true
    }

    open spec fn eq_spec(&self, other: &ArcValueType) -> bool {
        value_eq_spec(self, other)
    }
}

} // verus!
