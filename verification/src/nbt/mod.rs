//! The NBT (named binary tag) format: values, their mathematical model, and
//! a byte-exact reader and writer.

pub mod access;
pub mod format;
pub mod laws;
pub mod model;
pub mod prefix;
pub mod read;
pub mod write;

use vstd::prelude::*;

verus! {

/// An NBT value.
///
/// `Float` and `Double` hold the IEEE-754 bit patterns of the values, which is
/// exactly what the format stores. A `Compound` holds its named entries in
/// order; its names are kept distinct by `Tag::put` and by the reader.
#[derive(Debug)]
pub enum Tag {
    End,
    Byte(i8),
    Short(i16),
    Int(i32),
    Long(i64),
    Float(u32),
    Double(u64),
    ByteArray(Vec<u8>),
    String(String),
    List(Vec<Tag>),
    Compound(Vec<NamedTag>),
    IntArray(Vec<i32>),
    LongArray(Vec<i64>),
}

/// A value together with the name it carries inside a compound.
#[derive(Debug)]
pub struct NamedTag(pub String, pub Tag);

/// Why a byte sequence is not a valid NBT encoding.
#[derive(Debug, Clone, Copy, PartialEq, Eq, Structural)]
pub enum NbtError {
    /// The input ended inside a value.
    UnexpectedEof,
    /// Values are nested deeper than the reader accepts.
    DepthExceeded,
    /// An end marker stood where a value was expected.
    UnexpectedEnd,
    /// An array or list announced a negative length.
    NegativeArrayLength(i32),
    /// An array or list announced more elements than the reader accepts.
    ArrayTooLong(i32),
    /// A compound has more entries than the reader accepts.
    TooManyEntries,
    /// An unknown type id.
    InvalidTagId(u8),
    /// A string announced a negative length.
    NegativeStringLength(i16),
}

} // verus!
