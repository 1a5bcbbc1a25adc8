//! The error taxonomy shared by the decode and convert paths.
//!
//! Framing errors (truncated buffer, unknown tag, varint too wide,
//! invalid UTF-8) abort a whole parse. Conversion errors (wrong type,
//! out-of-range number, missing required field) are scoped to one field
//! at a time; the field store attaches the offending key before they
//! reach the caller.

use vstd::prelude::*;

verus! {

/// The kind of a decoded value, named in type-mismatch errors so a
/// caller sees both the requested type and what the wire actually held.
#[derive(Clone, Copy, Debug, PartialEq, Eq, Structural)]
pub enum Kind {
    Bool,
    F32,
    F64,
    Int,
    UInt,
    Str,
    Bytes,
    Struct,
    ListBool,
    ListF32,
    ListF64,
    ListInt,
    ListUInt,
    ListStr,
    ListBytes,
    ListList,
    ListStruct,
}

/// The kind of an abstract value, as named in errors.
pub open spec fn spec_kind(v: crate::wire::ValueV) -> Kind {
    match v {
        crate::wire::ValueV::Bool(_) => Kind::Bool,
        crate::wire::ValueV::F32(_) => Kind::F32,
        crate::wire::ValueV::F64(_) => Kind::F64,
        crate::wire::ValueV::Int(_) => Kind::Int,
        crate::wire::ValueV::UInt(_) => Kind::UInt,
        crate::wire::ValueV::Str(_) => Kind::Str,
        crate::wire::ValueV::Bytes(_) => Kind::Bytes,
        crate::wire::ValueV::Struct(_) => Kind::Struct,
        crate::wire::ValueV::List(l) => match l {
            crate::wire::ListV::Bool(_) => Kind::ListBool,
            crate::wire::ListV::F32(_) => Kind::ListF32,
            crate::wire::ListV::F64(_) => Kind::ListF64,
            crate::wire::ListV::Int(_) => Kind::ListInt,
            crate::wire::ListV::UInt(_) => Kind::ListUInt,
            crate::wire::ListV::Str(_) => Kind::ListStr,
            crate::wire::ListV::Bytes(_) => Kind::ListBytes,
            crate::wire::ListV::List(_) => Kind::ListList,
            crate::wire::ListV::Struct(_) => Kind::ListStruct,
        },
    }
}

/// Everything that can go wrong while decoding bytes or projecting a
/// decoded value into a native type.
#[derive(Clone, Copy, Debug, PartialEq, Eq, Structural)]
pub enum Error {
    /// The cursor ran out of bytes mid-field.
    UnexpectedEof,
    /// A field header carried a type tag outside the known range.
    UnknownOpcode(u8),
    /// A varint continuation sequence needed more than 64 bits.
    VarintOverflow,
    /// A string payload was not valid UTF-8.
    InvalidUtf8,
    /// A value of one kind was asked for as an incompatible type:
    /// the requested kind first, the kind actually found second.
    TypeMismatch(Kind, Kind),
    /// A number did not fit the requested width.
    NumericOverflow,
    /// A required field's key was absent from the record.
    MissingField,
}

/// A conversion failure enriched with the field key under lookup, so a
/// caller knows which key failed, not just which type mismatched.
#[derive(Clone, Copy, Debug, PartialEq, Eq, Structural)]
pub struct ConvertError {
    pub kind: Error,
    pub key: Option<u32>,
}

impl ConvertError {
    /// Wraps a bare error with no key attached yet.
    pub fn new(kind: Error) -> (r: ConvertError)
        ensures
            r == (ConvertError { kind, key: None::<u32> }),
    {
        ConvertError { kind, key: None }
    }
}

/// The cursor was exhausted mid-field.
pub fn eof() -> (r: Error)
    ensures
        r == Error::UnexpectedEof,
{
    Error::UnexpectedEof
}

/// A varint ran past 64 bits of payload.
pub fn leb128_err() -> (r: Error)
    ensures
        r == Error::VarintOverflow,
{
    Error::VarintOverflow
}

/// A header carried the given unassigned type tag.
pub fn unknown_opcode(code: u8) -> (r: Error)
    ensures
        r == Error::UnknownOpcode(code),
{
    Error::UnknownOpcode(code)
}

/// A number was outside the range its target could hold.
pub fn invalid_input() -> (r: Error)
    ensures
        r == Error::NumericOverflow,
{
    Error::NumericOverflow
}

impl crate::decoder::Value {
    /// The error for asking this value out as an incompatible kind.
    pub fn invalid_type(&self, expected: Kind) -> (r: Error)
        ensures
            r == Error::TypeMismatch(expected, spec_kind(self@)),
    {
        Error::TypeMismatch(expected, self.kind())
    }
}

} // verus!
