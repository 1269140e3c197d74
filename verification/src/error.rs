//! Failures of an encoding, and the shapes of values that are never encoded.

use vstd::prelude::*;

verus! {

/// A shape of value that has no typed-array or record layout.
#[derive(Clone, Copy, Debug, PartialEq, Eq, Structural)]
pub enum Shape {
    /// A boolean scalar.
    Boolean,
    /// A tagged union, with or without payload.
    Enumeration,
    /// An associative map.
    Dictionary,
    /// An optional or nullable wrapper.
    Optional,
    /// An anonymous tuple.
    Tuple,
    /// A record whose fields are positional.
    TupleStruct,
    /// The marker for the absence of a value.
    Nil,
}

/// Why an encoding stopped. Every failure is final: the encoder that reported
/// it holds no usable state afterwards.
#[derive(Clone, Copy, Debug, PartialEq, Eq, Structural)]
pub enum Error {
    /// A value had no name to be stored under, a field was closed without a
    /// value, a field was opened outside a structure, or a structure was given
    /// two fields of one name.
    Naming,
    /// An element of a sequence differs in datatype from the first one.
    TypeMismatch,
    /// A sequence ended without a single element.
    EmptyAggregate,
    /// The bytes at hand cannot be laid out as their datatype says.
    MalformedData,
    /// A value of a shape that is never encoded was seen.
    UnsupportedShape(Shape),
}

} // verus!
