//! The type-erased cell: a shared-ownership holder of "some value of
//! some type", either eager (the decoded value behind a shared
//! pointer) or lazy (a declared type name and a byte range into a
//! shared buffer, decode deferred).

use std::sync::Arc;
use vstd::prelude::*;
use vstd::slice::slice_subrange;
use vstd::utf8::encode_utf8;

use crate::errors::ValueError;
use crate::value::{byte_slice_eq, cv_eq, cv_eq_spec, value_name_spec, ConcreteValue};

verus! {

/// Relies on Arc::clone: the clone is the same shared value; the
/// payload is never copied.
#[verifier::external_body]
pub fn arc_clone<T>(a: &Arc<T>) -> (r: Arc<T>)
    ensures
        r == *a,
{
    Arc::clone(a)
}

/// Container for lazy deserialization data: a shared buffer and the
/// offsets of the payload within it, together with the type name the
/// wire header declared.
#[derive(Debug)]
pub struct LazyDataWithOffset {
    /// The type name declared in the wire header, not yet validated
    /// against any concrete type.
    pub type_label: String,
    /// The original shared buffer the payload lives in.
    pub original_buffer: Arc<Vec<u8>>,
    /// Start offset of the payload within the buffer.
    pub start_offset: usize,
    /// End offset of the payload within the buffer.
    pub end_offset: usize,
}

impl LazyDataWithOffset {
    /// The offsets lie within the buffer, and the declared name fits
    /// the single length byte the wire header carries.
    pub open spec fn wf(&self) -> bool {
        &&& self.start_offset <= self.end_offset
        &&& self.end_offset <= self.original_buffer@.len()
        &&& encode_utf8(self.type_label@).len() <= 255
    }

    /// The payload bytes this descriptor refers to.
    pub open spec fn payload(&self) -> Seq<u8> {
        self.original_buffer@.subrange(self.start_offset as int, self.end_offset as int)
    }

    /// The number of deferred payload bytes.
    pub fn data_len(&self) -> (r: usize)
        requires
            self.wf(),
        ensures
            r == self.payload().len(),
    {
        self.end_offset - self.start_offset
    }

    /// The payload bytes, as a slice of the shared buffer.
    pub fn payload_slice(&self) -> (r: &[u8])
        requires
            self.wf(),
        ensures
            r@ == self.payload(),
    {
        let buf: &Vec<u8> = &*self.original_buffer;
        slice_subrange(buf.as_slice(), self.start_offset, self.end_offset)
    }
}

impl Clone for LazyDataWithOffset {
    /// Clones share the same buffer; nothing is copied deeply.
    fn clone(&self) -> (r: Self)
        ensures
            r == *self,
    {
        LazyDataWithOffset {
            type_label: self.type_label.clone(),
            original_buffer: arc_clone(&self.original_buffer),
            start_offset: self.start_offset,
            end_offset: self.end_offset,
        }
    }
}

/// A type-erased holder: exactly one of a deferred payload or an
/// eager concrete value. The lazy-to-eager transition is
/// caller-driven and one-directional.
#[derive(Debug)]
pub enum ErasedArc {
    /// A fully decoded value, behind a shared pointer.
    Eager(Arc<ConcreteValue>),
    /// A deferred payload, not yet decoded.
    Lazy(LazyDataWithOffset),
}

/// Type-aware equality of cells: eager cells compare their values;
/// lazy cells compare declared names and payload bytes; a lazy cell
/// never equals an eager one without hydration.
pub open spec fn cell_eq_spec(a: &ErasedArc, b: &ErasedArc) -> bool {
    match (a, b) {
        (ErasedArc::Eager(x), ErasedArc::Eager(y)) => cv_eq_spec(x, y),
        (ErasedArc::Lazy(x), ErasedArc::Lazy(y)) => {
            &&& x.wf()
            &&& y.wf()
            &&& x.type_label@ == y.type_label@
            &&& x.payload() == y.payload()
        },
        _ => false,
    }
}

impl ErasedArc {
    /// The cell's invariant: a lazy payload has its offsets in
    /// bounds and its name within the header limit.
    pub open spec fn wf(&self) -> bool {
        match self {
            ErasedArc::Eager(_) => true,
            ErasedArc::Lazy(l) => l.wf(),
        }
    }

    /// The dynamic type name the cell reports: the eager value's
    /// canonical name, or the declared name of the deferred payload.
    pub open spec fn label_spec(&self) -> Seq<char> {
        match self {
            ErasedArc::Eager(v) => value_name_spec(v),
            ErasedArc::Lazy(l) => l.type_label@,
        }
    }

    /// Wrap a concrete value in an eager cell.
    pub fn new(value: ConcreteValue) -> (r: Self)
        ensures
            r matches ErasedArc::Eager(a) && a == value,
            r.wf(),
    {
        ErasedArc::Eager(Arc::new(value))
    }

    /// Wrap a deferred payload in a lazy cell.
    pub fn from_lazy(data: LazyDataWithOffset) -> (r: Self)
        ensures
            r == ErasedArc::Lazy(data),
    {
        ErasedArc::Lazy(data)
    }

    /// Whether the cell still defers its decode.
    pub fn is_lazy(&self) -> (r: bool)
        ensures
            r == (self is Lazy),
    {
        match self {
            ErasedArc::Eager(_) => false,
            ErasedArc::Lazy(_) => true,
        }
    }

    /// The deferred payload descriptor of a lazy cell.
    pub fn get_lazy_data(&self) -> (r: Result<&LazyDataWithOffset, ValueError>)
        ensures
            r is Ok <==> self is Lazy,
            r matches Ok(l) ==> *l == self->Lazy_0,
            r matches Err(e) ==> e == ValueError::InvalidState,
    {
        match self {
            ErasedArc::Lazy(l) => Ok(l),
            ErasedArc::Eager(_) => Err(ValueError::InvalidState),
        }
    }

    /// The dynamic type name the cell reports.
    pub fn type_label(&self) -> (r: String)
        ensures
            r@ == self.label_spec(),
    {
        match self {
            ErasedArc::Eager(v) => v.type_label(),
            ErasedArc::Lazy(l) => l.type_label.clone(),
        }
    }

    /// The executable check of the cell's invariant.
    pub fn check_wf(&self) -> (r: bool)
        ensures
            r == self.wf(),
    {
        match self {
            ErasedArc::Eager(_) => true,
            ErasedArc::Lazy(l) => {
                l.start_offset <= l.end_offset && l.end_offset <= (*l.original_buffer).len()
                    && l.type_label.as_str().as_bytes().len() <= 255
            },
        }
    }

    /// Type-aware equality of two cells.
    pub fn eq_value(&self, other: &ErasedArc) -> (r: bool)
        requires
            self.wf(),
            other.wf(),
        ensures
            r == cell_eq_spec(self, other),
    {
        match (self, other) {
            (ErasedArc::Eager(x), ErasedArc::Eager(y)) => cv_eq(&**x, &**y),
            (ErasedArc::Lazy(x), ErasedArc::Lazy(y)) => {
                crate::names::str_eq(x.type_label.as_str(), y.type_label.as_str())
                    && byte_slice_eq(x.payload_slice(), y.payload_slice())
            },
            _ => false,
        }
    }
}

impl Clone for ErasedArc {
    /// Clones share the underlying payload: the eager value's shared
    /// pointer or the lazy buffer, never a deep copy.
    fn clone(&self) -> (r: Self)
        ensures
            r == *self,
    {
        match self {
            ErasedArc::Eager(a) => ErasedArc::Eager(arc_clone(a)),
            ErasedArc::Lazy(l) => ErasedArc::Lazy(l.clone()),
        }
    }
}

} // verus!
