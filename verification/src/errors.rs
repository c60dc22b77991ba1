//! The error taxonomy shared by the registry, the codec and the
//! typed accessors. Every failure is reported to the caller as one
//! of these kinds; none is swallowed.

use vstd::prelude::*;

use crate::arc_value::ArcValueType;
use crate::value::ConcreteValue;

verus! {

/// Convert an error's message to a string value, so that it can
/// travel wherever values do.
pub fn error_to_string_value(error_message: String) -> (r: ArcValueType)
    ensures
        r.category == crate::value::ValueCategory::Primitive,
        r.is_eager() && r.eager_value() == ConcreteValue::Text(error_message),
{
    ArcValueType::new_primitive(ConcreteValue::Text(error_message))
}

/// Why an operation on the value engine failed.
#[derive(Clone, Copy, Debug, PartialEq, Eq, Structural)]
pub enum ValueError {
    /// A mutation was attempted on a sealed registry.
    Sealed,
    /// A serializer or deserializer was requested for a type name
    /// that is not registered.
    UnknownType,
    /// The dynamic type of an eager value, or the declared type of a
    /// lazy value, disagrees with the type an accessor requested.
    TypeMismatch,
    /// An accessor requested a shape inconsistent with the value's
    /// category.
    CategoryMismatch,
    /// The wire input was empty.
    EmptyBuffer,
    /// The wire input ended before the header was complete.
    TruncatedHeader,
    /// The wire input began with an unknown category byte.
    InvalidCategory,
    /// The type name on the wire was not valid text.
    InvalidTypeName,
    /// A type name exceeded the 255 bytes the header can carry.
    TypeNameTooLong,
    /// The payload could not be decoded into the requested type even
    /// though the type name matched.
    DeserializationError,
    /// An internal invariant was violated: a value is present with
    /// the null category, or absent without it.
    InvalidState,
}

/// What each error kind reads as.
pub open spec fn error_text(e: &ValueError) -> Seq<char> {
    match e {
        ValueError::Sealed => "registry is sealed"@,
        ValueError::UnknownType => "no handler registered for type"@,
        ValueError::TypeMismatch => "type mismatch"@,
        ValueError::CategoryMismatch => "category mismatch"@,
        ValueError::EmptyBuffer => "empty byte array"@,
        ValueError::TruncatedHeader => "byte array too short for header"@,
        ValueError::InvalidCategory => "invalid category marker"@,
        ValueError::InvalidTypeName => "invalid type name encoding"@,
        ValueError::TypeNameTooLong => "type name too long"@,
        ValueError::DeserializationError => "failed to decode payload"@,
        ValueError::InvalidState => "inconsistent value state"@,
    }
}

impl ValueError {
    /// A short, stable description of the error kind.
    pub fn describe(&self) -> (r: &'static str)
        ensures
            r@ == error_text(self),
    {
        match self {
            ValueError::Sealed => "registry is sealed",
            ValueError::UnknownType => "no handler registered for type",
            ValueError::TypeMismatch => "type mismatch",
            ValueError::CategoryMismatch => "category mismatch",
            ValueError::EmptyBuffer => "empty byte array",
            ValueError::TruncatedHeader => "byte array too short for header",
            ValueError::InvalidCategory => "invalid category marker",
            ValueError::InvalidTypeName => "invalid type name encoding",
            ValueError::TypeNameTooLong => "type name too long",
            ValueError::DeserializationError => "failed to decode payload",
            ValueError::InvalidState => "inconsistent value state",
        }
    }
}

} // verus!
