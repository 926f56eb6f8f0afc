//! A codec for a length-and-order-driven binary network protocol: primitive
//! and variable-length integer encodings, a shape-driven traversal engine for
//! structured values, hand-built codecs for irregular wire shapes, and a
//! framing layer that cuts a byte stream into messages.
//!
//! Every function states its result over byte sequences, and the round-trip
//! laws of the wire format are proved once, as public proof functions.
//!
//! The wire format is built up from the leaves:
//!
//! - `varint`, `fixed`, `primitive`, `text`, `optional`: numbers, booleans,
//!   text and the absence marker, each as a pair of specification functions
//!   (the bytes of a value, the value at the front of some bytes) with the
//!   functions that compute them;
//! - `types`: the values with a codec of their own;
//! - `shape`, `value`, `engine`: the description of a value's shape, the
//!   values themselves, and what reading and writing a value of any shape
//!   means;
//! - `walk`, `emit`: the two walks, one that reads and one that writes, each
//!   over a stack of its own instead of the call stack;
//! - `de`, `ser`: a cursor and a sink for reading and writing value by value;
//! - `codec`, `transport`: frames on a byte stream, and messages in frames;
//! - `packet`, `play`: the shapes of the protocol's messages;
//! - `laws`: what holds of the format as a whole;
//! - `foreign`: the calls into code that is not verified here.

pub mod codec;
pub mod de;
pub mod emit;
pub mod engine;
pub mod error;
pub mod fixed;
pub mod foreign;
pub mod laws;
pub mod optional;
pub mod packet;
pub mod parse;
pub mod play;
pub mod primitive;
pub mod ser;
pub mod shape;
pub mod text;
pub mod transport;
pub mod types;
pub mod value;
pub mod varint;
pub mod walk;

pub use codec::read_varint;
pub use de::{deserialize, MCProtoDeserializer};
pub use ser::{serialize, MCProtoSerializer};
pub use varint::write_varint;
