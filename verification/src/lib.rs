//! A type-erased, lazily deserializing value engine.
//!
//! Values travel between processes as self-describing byte sequences:
//! a category byte, a length-prefixed type name, and a payload. A
//! registry maps type names to payload codecs; decoding defers the
//! payload (keeping a shared slice of the received buffer) until a
//! caller asks for a concretely typed view, at which point the value
//! is hydrated in place and memoized.

pub mod arc_value;
pub mod cell;
pub mod codec;
pub mod context;
pub mod convert;
pub mod display;
pub mod errors;
pub mod names;
pub mod orders;
pub mod registry;
pub mod transport;
pub mod value;
pub mod wire;

pub use arc_value::ArcValueType;
pub use cell::{ErasedArc, LazyDataWithOffset};
pub use errors::ValueError;
pub use registry::{DeserializerFnWrapper, SerializerRegistry};
pub use value::{ConcreteValue, ValueCategory, ValueKind};
