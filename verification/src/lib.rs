//! A compact, self-describing binary encoding for structured records.
//!
//! A record is written as a sequence of tagged fields, each prefixed by a
//! one-or-more-byte header packing a field id and a four-bit type tag,
//! and closed by a terminator byte. Integers travel as little-endian
//! base-128 varints; signed integers are folded through the zigzag
//! mapping first, so small magnitudes stay short on the wire. The reader
//! side materializes an untyped value tree, wraps it in a key-indexed
//! field store, and projects looked-up values into native types with
//! precise error context.

use vstd::prelude::*;

pub use convert::{convert_record, ConvertFrom, ConvertSource};
pub use decoder::{parse_struct, List, Value};
pub use entries::Entries;
pub use errors::{ConvertError, Error, Kind};
pub use field::{encode_struct, encode_struct_field, F32Bits, F64Bits, FieldEncoder};

pub mod convert;
pub mod decoder;
pub mod entries;
pub mod errors;
pub mod field;
pub mod leb128;
pub mod utils;
pub mod wire;
pub mod zig_zag;

verus! {

/// Writes a whole record: every present field with its header, then the
/// closing terminator byte. Record types implement this; the field
/// calls inside come from [`field::FieldEncoder`].
pub trait Encoder {
    /// True when every field of the record fits the wire limits
    /// (string, byte and list lengths at most `u32::MAX`).
    spec fn encodable(&self) -> bool;

    /// The exact bytes this record appends: its fields' encodings
    /// followed by the terminator byte.
    spec fn record_bytes(&self) -> Seq<u8>;

    fn encode(&self, w: &mut Vec<u8>)
        requires
            self.encodable(),
        ensures
            final(w)@ == old(w)@ + self.record_bytes(),
    ;
}

/// Reads a record type back: first the byte stream becomes a field
/// store, then each field is projected into its native type. Record
/// types implement `decode`; `parse` runs the whole read side.
pub trait Decoder: Sized {
    fn decode(entries: &Entries) -> Result<Self, errors::ConvertError>;

    /// Framing is pinned here: the cursor moves exactly as the wire
    /// specification says, and a malformed stream returns its framing
    /// error with no key. What a structurally sound record becomes is
    /// up to the implementor's `decode`.
    fn parse(input: &[u8], pos: &mut usize) -> (r: Result<Self, errors::ConvertError>)
        requires
            *old(pos) <= input@.len(),
        ensures
            *old(pos) <= *final(pos) <= input@.len(),
            match wire::dec_struct(input@.skip(*old(pos) as int)) {
                Ok(p) => *final(pos) == *old(pos) + p.1,
                Err(e) => r == Err::<Self, errors::ConvertError>(
                    errors::ConvertError { kind: e, key: None },
                ),
            },
    {
        match Entries::parse(input, pos) {
            Ok(entries) => Self::decode(&entries),
            Err(e) => Err(errors::ConvertError { kind: e, key: None }),
        }
    }
}

} // verus!
