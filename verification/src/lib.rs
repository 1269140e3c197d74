//! Encoding of structured values into named, typed datasets.
//!
//! A value is walked depth first and reported to an [`Encoder`] as a stream of
//! events: scalars, and the boundaries of sequences, structures and named
//! fields. The encoder turns the stream into one finished [`Dataset`]: a name,
//! a [`Datatype`] and the bytes laid out as that datatype says.
//!
//! All multi-byte scalars are laid out little-endian.

pub mod accumulator;
pub mod data;
pub mod datatype;
pub mod encoder;
pub mod error;
pub mod laws;

pub use accumulator::{Sequence, SequenceView, Structure, StructureView};
pub use data::{Data, DataView, Scalar, Value};
pub use datatype::{Datatype, DatatypeView, Field, FieldView};
pub use encoder::{Dataset, DatasetView, Encoder, EncoderView, Frame, FrameView, State, StateView};
pub use error::{Error, Shape};
