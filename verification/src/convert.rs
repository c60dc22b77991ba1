//! Conversions into the public value handle: plain inputs become
//! eager values of the matching category, the unit input becomes the
//! null value, and an optional input becomes either.

use vstd::prelude::*;

use crate::arc_value::ArcValueType;
use crate::value::{ConcreteValue, ValueCategory};

verus! {

/// Anything that can stand for a value.
pub trait AsArcValueType: Sized {
    /// Whether `r` is the value this input stands for.
    spec fn models(&self, r: &ArcValueType) -> bool;

    /// Convert the input into a value handle.
    fn into_arc_value_type(self) -> (r: ArcValueType)
        ensures
            self.models(&r),
    ;
}

impl AsArcValueType for ArcValueType {
    open spec fn models(&self, r: &ArcValueType) -> bool {
        *r == *self
    }

    fn into_arc_value_type(self) -> (r: ArcValueType)
        ensures
            self.models(&r),
    {
        self
    }
}

impl AsArcValueType for bool {
    open spec fn models(&self, r: &ArcValueType) -> bool {
        &&& r.category == ValueCategory::Primitive
        &&& r.is_eager()
        &&& r.eager_value() == ConcreteValue::Bool(*self)
    }

    fn into_arc_value_type(self) -> (r: ArcValueType)
        ensures
            self.models(&r),
    {
        ArcValueType::new_primitive(ConcreteValue::Bool(self))
    }
}

impl AsArcValueType for i64 {
    open spec fn models(&self, r: &ArcValueType) -> bool {
        &&& r.category == ValueCategory::Primitive
        &&& r.is_eager()
        &&& r.eager_value() == ConcreteValue::I64(*self)
    }

    fn into_arc_value_type(self) -> (r: ArcValueType)
        ensures
            self.models(&r),
    {
        ArcValueType::new_primitive(ConcreteValue::I64(self))
    }
}

impl AsArcValueType for String {
    open spec fn models(&self, r: &ArcValueType) -> bool {
        &&& r.category == ValueCategory::Primitive
        &&& r.is_eager()
        &&& r.eager_value() matches ConcreteValue::Text(s) && s@ == self@
    }

    fn into_arc_value_type(self) -> (r: ArcValueType)
        ensures
            self.models(&r),
    {
        ArcValueType::new_primitive(ConcreteValue::Text(self))
    }
}

impl<'a> AsArcValueType for &'a str {
    open spec fn models(&self, r: &ArcValueType) -> bool {
        &&& r.category == ValueCategory::Primitive
        &&& r.is_eager()
        &&& r.eager_value() matches ConcreteValue::Text(s) && s@ == self@
    }

    fn into_arc_value_type(self) -> (r: ArcValueType)
        ensures
            self.models(&r),
    {
        ArcValueType::new_primitive(ConcreteValue::Text(self.to_owned()))
    }
}

impl AsArcValueType for () {
    open spec fn models(&self, r: &ArcValueType) -> bool {
        r.category == ValueCategory::Null && r.value is None
    }

    fn into_arc_value_type(self) -> (r: ArcValueType)
        ensures
            self.models(&r),
    {
        ArcValueType::null()
    }
}

impl<T: AsArcValueType> AsArcValueType for Option<T> {
    open spec fn models(&self, r: &ArcValueType) -> bool {
        match self {
            Some(v) => v.models(r),
            None => r.category == ValueCategory::Null && r.value is None,
        }
    }

    fn into_arc_value_type(self) -> (r: ArcValueType)
        ensures
            self.models(&r),
    {
        match self {
            Some(v) => v.into_arc_value_type(),
            None => ArcValueType::null(),
        }
    }
}

} // verus!
