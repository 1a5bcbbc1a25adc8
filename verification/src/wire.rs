//! The wire format, as mathematics.
//!
//! [`ValueV`] is the abstract value tree; the `enc_*` functions give the
//! exact bytes the encoder side writes for it, and the `dec_*` functions
//! give what the decoder side reads from any byte sequence. The
//! round-trip lemmas connect the two: decoding an encoding, with
//! anything concatenated after it, yields the original tree and consumes
//! exactly the encoding's bytes.
//!
//! Type tags: `0` bool-false, `1` bool-true, `2` f32 bits (4 bytes
//! little-endian), `3` f64 bits (8 bytes little-endian), `4` signed
//! integer (zigzag varint), `5` unsigned integer (varint), `6` UTF-8
//! string (varint byte length, then the bytes), `7` byte string (varint
//! length, then the bytes), `8` homogeneous list, `9` nested record,
//! `10` record terminator.

use vstd::prelude::*;

use crate::errors::Error;
use crate::leb128::{dec_varint, spec_varint};
use crate::zig_zag::{spec_unzigzag, spec_zigzag};

verus! {

/// The abstract decoded value: what one field of a record holds.
/// Four-byte and eight-byte floating payloads are carried as their
/// little-endian bit patterns, so the tree is exact bits in, exact bits
/// out.
pub enum ValueV {
    Bool(bool),
    F32(u32),
    F64(u64),
    Int(i64),
    UInt(u64),
    Str(Seq<char>),
    Bytes(Seq<u8>),
    List(ListV),
    Struct(Seq<(u32, ValueV)>),
}

/// The abstract homogeneous list: one element kind per list.
pub enum ListV {
    Bool(Seq<bool>),
    F32(Seq<u32>),
    F64(Seq<u64>),
    Int(Seq<i64>),
    UInt(Seq<u64>),
    Str(Seq<Seq<char>>),
    Bytes(Seq<Seq<u8>>),
    List(Seq<ListV>),
    Struct(Seq<Seq<(u32, ValueV)>>),
}

/// The record terminator byte: a header with id 0 and tag 10.
pub open spec fn terminator() -> u8 {
    10u8
}

/// The header bytes for a (field id, type tag) pair: ids below 15 pack
/// into the byte's high nibble; larger ids put 15 there and append the
/// varint of `id - 15`. The same packing serves list headers, with the
/// element count in the id slot and the element tag in the tag slot.
pub open spec fn spec_header(id: u32, tag: u8) -> Seq<u8> {
    if id < 15 {
        seq![(id * 16 + tag) as u8]
    } else {
        seq![(15 * 16 + tag) as u8] + spec_varint((id - 15) as u64)
    }
}

/// The four little-endian bytes of a 32-bit value.
pub open spec fn spec_le32(v: u32) -> Seq<u8> {
    seq![
        (v % 256) as u8,
        ((v / 256) % 256) as u8,
        ((v / 0x10000) % 256) as u8,
        ((v / 0x1000000) % 256) as u8,
    ]
}

/// The eight little-endian bytes of a 64-bit value.
pub open spec fn spec_le64(v: u64) -> Seq<u8> {
    seq![
        (v % 256) as u8,
        ((v / 256) % 256) as u8,
        ((v / 0x10000) % 256) as u8,
        ((v / 0x1000000) % 256) as u8,
        ((v / 0x100000000) % 256) as u8,
        ((v / 0x10000000000) % 256) as u8,
        ((v / 0x1000000000000) % 256) as u8,
        ((v / 0x100000000000000) % 256) as u8,
    ]
}

/// The byte a boolean takes as a bare list element.
pub open spec fn spec_bool_byte(b: bool) -> u8 {
    if b {
        1u8
    } else {
        0u8
    }
}

/// The length-prefixed form of a raw byte payload.
pub open spec fn enc_len_prefixed(bytes: Seq<u8>) -> Seq<u8> {
    spec_varint(bytes.len() as u64) + bytes
}

/// The byte payload of a string: its UTF-8 bytes behind their length.
pub open spec fn enc_str(s: Seq<char>) -> Seq<u8> {
    enc_len_prefixed(vstd::utf8::encode_utf8(s))
}

/// The type tag a value carries in its field header. Booleans fold the
/// value itself into the tag.
pub open spec fn spec_tag(v: ValueV) -> u8 {
    match v {
        ValueV::Bool(b) => spec_bool_byte(b),
        ValueV::F32(_) => 2u8,
        ValueV::F64(_) => 3u8,
        ValueV::Int(_) => 4u8,
        ValueV::UInt(_) => 5u8,
        ValueV::Str(_) => 6u8,
        ValueV::Bytes(_) => 7u8,
        ValueV::List(_) => 8u8,
        ValueV::Struct(_) => 9u8,
    }
}

/// The element tag a list announces in its inline header.
pub open spec fn spec_elem_tag(l: ListV) -> u8 {
    match l {
        ListV::Bool(_) => 1u8,
        ListV::F32(_) => 2u8,
        ListV::F64(_) => 3u8,
        ListV::Int(_) => 4u8,
        ListV::UInt(_) => 5u8,
        ListV::Str(_) => 6u8,
        ListV::Bytes(_) => 7u8,
        ListV::List(_) => 8u8,
        ListV::Struct(_) => 9u8,
    }
}

/// The element count of a list.
pub open spec fn spec_list_len(l: ListV) -> nat {
    match l {
        ListV::Bool(s) => s.len(),
        ListV::F32(s) => s.len(),
        ListV::F64(s) => s.len(),
        ListV::Int(s) => s.len(),
        ListV::UInt(s) => s.len(),
        ListV::Str(s) => s.len(),
        ListV::Bytes(s) => s.len(),
        ListV::List(s) => s.len(),
        ListV::Struct(s) => s.len(),
    }
}

/// The payload bytes of one value, without its field header. A boolean
/// has no payload at field level: its header already tells the value.
pub open spec fn enc_payload(v: ValueV) -> Seq<u8>
    decreases v, 0int,
{
    match v {
        ValueV::Bool(_) => Seq::empty(),
        ValueV::F32(bits) => spec_le32(bits),
        ValueV::F64(bits) => spec_le64(bits),
        ValueV::Int(n) => spec_varint(spec_zigzag(n)),
        ValueV::UInt(n) => spec_varint(n),
        ValueV::Str(s) => enc_str(s),
        ValueV::Bytes(b) => enc_len_prefixed(b),
        ValueV::List(l) => enc_list(l),
        ValueV::Struct(fs) => enc_struct(fs),
    }
}

/// One field on the wire: header, then payload.
pub open spec fn enc_field(id: u32, v: ValueV) -> Seq<u8>
    decreases v, 1int,
{
    spec_header(id, spec_tag(v)) + enc_payload(v)
}

/// A run of fields, in order.
pub open spec fn enc_fields(fs: Seq<(u32, ValueV)>) -> Seq<u8>
    decreases fs, 1int,
{
    if fs.len() == 0 {
        Seq::empty()
    } else {
        enc_field(fs[0].0, fs[0].1) + enc_fields(fs.drop_first())
    }
}

/// A whole record: its fields, closed by the terminator byte.
pub open spec fn enc_struct(fs: Seq<(u32, ValueV)>) -> Seq<u8>
    decreases fs, 2int,
{
    enc_fields(fs) + seq![terminator()]
}

/// The elements of a list, encoded back to back without the list's
/// inline header.
pub open spec fn enc_list_body(l: ListV) -> Seq<u8>
    decreases l, 1int,
{
    match l {
        ListV::Bool(s) => enc_bool_elems(s),
        ListV::F32(s) => enc_f32_elems(s),
        ListV::F64(s) => enc_f64_elems(s),
        ListV::Int(s) => enc_int_elems(s),
        ListV::UInt(s) => enc_uint_elems(s),
        ListV::Str(s) => enc_str_elems(s),
        ListV::Bytes(s) => enc_bytes_elems(s),
        ListV::List(s) => enc_list_elems(s),
        ListV::Struct(s) => enc_struct_elems(s),
    }
}

/// A list's bytes: its inline header (count and element tag), then each
/// element's bare payload back to back.
pub open spec fn enc_list(l: ListV) -> Seq<u8>
    decreases l, 2int,
{
    spec_header(spec_list_len(l) as u32, spec_elem_tag(l)) + enc_list_body(l)
}

pub open spec fn enc_bool_elems(s: Seq<bool>) -> Seq<u8>
    decreases s, 0int,
{
    if s.len() == 0 {
        Seq::empty()
    } else {
        seq![spec_bool_byte(s[0])] + enc_bool_elems(s.drop_first())
    }
}

pub open spec fn enc_f32_elems(s: Seq<u32>) -> Seq<u8>
    decreases s, 0int,
{
    if s.len() == 0 {
        Seq::empty()
    } else {
        spec_le32(s[0]) + enc_f32_elems(s.drop_first())
    }
}

pub open spec fn enc_f64_elems(s: Seq<u64>) -> Seq<u8>
    decreases s, 0int,
{
    if s.len() == 0 {
        Seq::empty()
    } else {
        spec_le64(s[0]) + enc_f64_elems(s.drop_first())
    }
}

pub open spec fn enc_int_elems(s: Seq<i64>) -> Seq<u8>
    decreases s, 0int,
{
    if s.len() == 0 {
        Seq::empty()
    } else {
        spec_varint(spec_zigzag(s[0])) + enc_int_elems(s.drop_first())
    }
}

pub open spec fn enc_uint_elems(s: Seq<u64>) -> Seq<u8>
    decreases s, 0int,
{
    if s.len() == 0 {
        Seq::empty()
    } else {
        spec_varint(s[0]) + enc_uint_elems(s.drop_first())
    }
}

pub open spec fn enc_str_elems(s: Seq<Seq<char>>) -> Seq<u8>
    decreases s, 0int,
{
    if s.len() == 0 {
        Seq::empty()
    } else {
        enc_str(s[0]) + enc_str_elems(s.drop_first())
    }
}

pub open spec fn enc_bytes_elems(s: Seq<Seq<u8>>) -> Seq<u8>
    decreases s, 0int,
{
    if s.len() == 0 {
        Seq::empty()
    } else {
        enc_len_prefixed(s[0]) + enc_bytes_elems(s.drop_first())
    }
}

pub open spec fn enc_list_elems(s: Seq<ListV>) -> Seq<u8>
    decreases s, 0int,
{
    if s.len() == 0 {
        Seq::empty()
    } else {
        enc_list(s[0]) + enc_list_elems(s.drop_first())
    }
}

pub open spec fn enc_struct_elems(s: Seq<Seq<(u32, ValueV)>>) -> Seq<u8>
    decreases s, 0int,
{
    if s.len() == 0 {
        Seq::empty()
    } else {
        enc_struct(s[0]) + enc_struct_elems(s.drop_first())
    }
}

/// The suffix of `bytes` after its first `k` bytes; empty when `k` runs
/// past the end (which never happens for the consumed counts the
/// decoders actually return).
pub open spec fn advance(bytes: Seq<u8>, k: nat) -> Seq<u8> {
    if k <= bytes.len() {
        bytes.skip(k as int)
    } else {
        Seq::empty()
    }
}

/// Reading a header from the front of `bytes`: the field id (or element
/// count), the type tag from the low nibble, and the bytes consumed. A
/// high nibble of 15 announces an escaped id, `15 +` the varint that
/// follows; an escaped id above `u32::MAX` is out of range.
pub open spec fn dec_header(bytes: Seq<u8>) -> Result<(u32, u8, nat), Error> {
    if bytes.len() == 0 {
        Err(Error::UnexpectedEof)
    } else {
        let tag = bytes[0] % 16;
        let hi = bytes[0] / 16;
        if hi < 15 {
            Ok((hi as u32, tag, 1))
        } else {
            match dec_varint(bytes.skip(1)) {
                Ok((v, n)) => if v <= u32::MAX - 15 {
                    Ok(((v + 15) as u32, tag, n + 1))
                } else {
                    Err(Error::NumericOverflow)
                },
                Err(e) => Err(e),
            }
        }
    }
}

/// Reading four little-endian bytes as a 32-bit value.
pub open spec fn dec_le32(bytes: Seq<u8>) -> Result<(u32, nat), Error> {
    if bytes.len() < 4 {
        Err(Error::UnexpectedEof)
    } else {
        Ok(
            (
                (bytes[0] + bytes[1] * 256 + bytes[2] * 0x10000 + bytes[3] * 0x1000000) as u32,
                4,
            ),
        )
    }
}

/// Reading eight little-endian bytes as a 64-bit value.
pub open spec fn dec_le64(bytes: Seq<u8>) -> Result<(u64, nat), Error> {
    if bytes.len() < 8 {
        Err(Error::UnexpectedEof)
    } else {
        Ok(
            (
                (bytes[0] + bytes[1] * 256 + bytes[2] * 0x10000 + bytes[3] * 0x1000000 + bytes[4]
                    * 0x100000000 + bytes[5] * 0x10000000000 + bytes[6] * 0x1000000000000 + bytes[7]
                    * 0x100000000000000) as u64,
                8,
            ),
        )
    }
}

/// Reading a length-prefixed byte payload: the varint length (at most
/// `u32::MAX`), then that many raw bytes.
pub open spec fn dec_bytes(bytes: Seq<u8>) -> Result<(Seq<u8>, nat), Error> {
    match dec_varint(bytes) {
        Ok((lenv, n)) => if lenv > u32::MAX {
            Err(Error::NumericOverflow)
        } else if n + lenv > bytes.len() {
            Err(Error::UnexpectedEof)
        } else {
            Ok((bytes.subrange(n as int, n + lenv), (n + lenv) as nat))
        },
        Err(e) => Err(e),
    }
}

/// Reading a string payload: a byte payload that must be valid UTF-8.
pub open spec fn dec_str(bytes: Seq<u8>) -> Result<(Seq<char>, nat), Error> {
    match dec_bytes(bytes) {
        Ok((b, n)) => if vstd::utf8::valid_utf8(b) {
            Ok((vstd::utf8::decode_utf8(b), n))
        } else {
            Err(Error::InvalidUtf8)
        },
        Err(e) => Err(e),
    }
}

/// Reading a record: headers in a loop, each followed by its payload,
/// until the terminator tag stops the run. The terminator's id slot is
/// not load-bearing: any id is accepted there.
pub open spec fn dec_struct(bytes: Seq<u8>) -> Result<(Seq<(u32, ValueV)>, nat), Error>
    decreases bytes.len(), 0int, 0int,
{
    match dec_header(bytes) {
        Ok((id, tag, hn)) => {
            if tag == 10 {
                Ok((Seq::empty(), hn))
            } else {
                match dec_payload(advance(bytes, hn), tag) {
                    Ok((v, pn)) => match dec_struct(advance(bytes, hn + pn)) {
                        Ok((fs, rn)) => Ok((seq![(id, v)] + fs, hn + pn + rn)),
                        Err(e) => Err(e),
                    },
                    Err(e) => Err(e),
                }
            }
        },
        Err(e) => Err(e),
    }
}

/// Reading the payload a field with the given tag announces. Boolean
/// tags carry the value in the tag itself and consume nothing; a tag
/// outside the assigned range is an unknown opcode.
pub open spec fn dec_payload(bytes: Seq<u8>, tag: u8) -> Result<(ValueV, nat), Error>
    decreases bytes.len(), 0int, 1int,
{
    if tag == 0 {
        Ok((ValueV::Bool(false), 0))
    } else if tag == 1 {
        Ok((ValueV::Bool(true), 0))
    } else if tag == 2 {
        match dec_le32(bytes) {
            Ok((v, n)) => Ok((ValueV::F32(v), n)),
            Err(e) => Err(e),
        }
    } else if tag == 3 {
        match dec_le64(bytes) {
            Ok((v, n)) => Ok((ValueV::F64(v), n)),
            Err(e) => Err(e),
        }
    } else if tag == 4 {
        match dec_varint(bytes) {
            Ok((u, n)) => Ok((ValueV::Int(spec_unzigzag(u)), n)),
            Err(e) => Err(e),
        }
    } else if tag == 5 {
        match dec_varint(bytes) {
            Ok((u, n)) => Ok((ValueV::UInt(u), n)),
            Err(e) => Err(e),
        }
    } else if tag == 6 {
        match dec_str(bytes) {
            Ok((s, n)) => Ok((ValueV::Str(s), n)),
            Err(e) => Err(e),
        }
    } else if tag == 7 {
        match dec_bytes(bytes) {
            Ok((b, n)) => Ok((ValueV::Bytes(b), n)),
            Err(e) => Err(e),
        }
    } else if tag == 8 {
        match dec_list(bytes) {
            Ok((l, n)) => Ok((ValueV::List(l), n)),
            Err(e) => Err(e),
        }
    } else if tag == 9 {
        match dec_struct(bytes) {
            Ok((fs, n)) => Ok((ValueV::Struct(fs), n)),
            Err(e) => Err(e),
        }
    } else {
        Err(Error::UnknownOpcode(tag))
    }
}

/// Reading a list: its inline header gives the element count and the
/// element tag, then that many bare payloads follow back to back.
pub open spec fn dec_list(bytes: Seq<u8>) -> Result<(ListV, nat), Error>
    decreases bytes.len(), 0int, 0int,
{
    match dec_header(bytes) {
        Ok((count, tag, hn)) => {
            let rest = advance(bytes, hn);
            let n = count as nat;
            if tag <= 1 {
                match dec_bool_elems(rest, n) {
                    Ok((s, en)) => Ok((ListV::Bool(s), hn + en)),
                    Err(e) => Err(e),
                }
            } else if tag == 2 {
                match dec_f32_elems(rest, n) {
                    Ok((s, en)) => Ok((ListV::F32(s), hn + en)),
                    Err(e) => Err(e),
                }
            } else if tag == 3 {
                match dec_f64_elems(rest, n) {
                    Ok((s, en)) => Ok((ListV::F64(s), hn + en)),
                    Err(e) => Err(e),
                }
            } else if tag == 4 {
                match dec_int_elems(rest, n) {
                    Ok((s, en)) => Ok((ListV::Int(s), hn + en)),
                    Err(e) => Err(e),
                }
            } else if tag == 5 {
                match dec_uint_elems(rest, n) {
                    Ok((s, en)) => Ok((ListV::UInt(s), hn + en)),
                    Err(e) => Err(e),
                }
            } else if tag == 6 {
                match dec_str_elems(rest, n) {
                    Ok((s, en)) => Ok((ListV::Str(s), hn + en)),
                    Err(e) => Err(e),
                }
            } else if tag == 7 {
                match dec_bytes_elems(rest, n) {
                    Ok((s, en)) => Ok((ListV::Bytes(s), hn + en)),
                    Err(e) => Err(e),
                }
            } else if tag == 8 {
                match dec_list_elems(rest, n) {
                    Ok((s, en)) => Ok((ListV::List(s), hn + en)),
                    Err(e) => Err(e),
                }
            } else if tag == 9 {
                match dec_struct_elems(rest, n) {
                    Ok((s, en)) => Ok((ListV::Struct(s), hn + en)),
                    Err(e) => Err(e),
                }
            } else {
                Err(Error::UnknownOpcode(tag))
            }
        },
        Err(e) => Err(e),
    }
}

/// Reading `n` bare boolean elements: one byte each, nonzero is true.
pub open spec fn dec_bool_elems(bytes: Seq<u8>, n: nat) -> Result<(Seq<bool>, nat), Error>
    decreases bytes.len(), n, 0int,
{
    if n == 0 {
        Ok((Seq::empty(), 0))
    } else if bytes.len() == 0 {
        Err(Error::UnexpectedEof)
    } else {
        match dec_bool_elems(bytes.skip(1), (n - 1) as nat) {
            Ok((s, en)) => Ok((seq![bytes[0] != 0] + s, en + 1)),
            Err(e) => Err(e),
        }
    }
}

/// Reading `n` bare 32-bit little-endian elements.
pub open spec fn dec_f32_elems(bytes: Seq<u8>, n: nat) -> Result<(Seq<u32>, nat), Error>
    decreases bytes.len(), n, 0int,
{
    if n == 0 {
        Ok((Seq::empty(), 0))
    } else {
        match dec_le32(bytes) {
            Ok((v, k)) => match dec_f32_elems(advance(bytes, k), (n - 1) as nat) {
                Ok((s, en)) => Ok((seq![v] + s, k + en)),
                Err(e) => Err(e),
            },
            Err(e) => Err(e),
        }
    }
}

/// Reading `n` bare 64-bit little-endian elements.
pub open spec fn dec_f64_elems(bytes: Seq<u8>, n: nat) -> Result<(Seq<u64>, nat), Error>
    decreases bytes.len(), n, 0int,
{
    if n == 0 {
        Ok((Seq::empty(), 0))
    } else {
        match dec_le64(bytes) {
            Ok((v, k)) => match dec_f64_elems(advance(bytes, k), (n - 1) as nat) {
                Ok((s, en)) => Ok((seq![v] + s, k + en)),
                Err(e) => Err(e),
            },
            Err(e) => Err(e),
        }
    }
}

/// Reading `n` bare zigzag-varint elements.
pub open spec fn dec_int_elems(bytes: Seq<u8>, n: nat) -> Result<(Seq<i64>, nat), Error>
    decreases bytes.len(), n, 0int,
{
    if n == 0 {
        Ok((Seq::empty(), 0))
    } else {
        match dec_varint(bytes) {
            Ok((u, k)) => match dec_int_elems(advance(bytes, k), (n - 1) as nat) {
                Ok((s, en)) => Ok((seq![spec_unzigzag(u)] + s, k + en)),
                Err(e) => Err(e),
            },
            Err(e) => Err(e),
        }
    }
}

/// Reading `n` bare varint elements.
pub open spec fn dec_uint_elems(bytes: Seq<u8>, n: nat) -> Result<(Seq<u64>, nat), Error>
    decreases bytes.len(), n, 0int,
{
    if n == 0 {
        Ok((Seq::empty(), 0))
    } else {
        match dec_varint(bytes) {
            Ok((u, k)) => match dec_uint_elems(advance(bytes, k), (n - 1) as nat) {
                Ok((s, en)) => Ok((seq![u] + s, k + en)),
                Err(e) => Err(e),
            },
            Err(e) => Err(e),
        }
    }
}

/// Reading `n` bare string elements, each length-prefixed.
pub open spec fn dec_str_elems(bytes: Seq<u8>, n: nat) -> Result<(Seq<Seq<char>>, nat), Error>
    decreases bytes.len(), n, 0int,
{
    if n == 0 {
        Ok((Seq::empty(), 0))
    } else {
        match dec_str(bytes) {
            Ok((v, k)) => match dec_str_elems(advance(bytes, k), (n - 1) as nat) {
                Ok((s, en)) => Ok((seq![v] + s, k + en)),
                Err(e) => Err(e),
            },
            Err(e) => Err(e),
        }
    }
}

/// Reading `n` bare byte-string elements, each length-prefixed.
pub open spec fn dec_bytes_elems(bytes: Seq<u8>, n: nat) -> Result<(Seq<Seq<u8>>, nat), Error>
    decreases bytes.len(), n, 0int,
{
    if n == 0 {
        Ok((Seq::empty(), 0))
    } else {
        match dec_bytes(bytes) {
            Ok((v, k)) => match dec_bytes_elems(advance(bytes, k), (n - 1) as nat) {
                Ok((s, en)) => Ok((seq![v] + s, k + en)),
                Err(e) => Err(e),
            },
            Err(e) => Err(e),
        }
    }
}

/// Reading `n` nested list elements.
pub open spec fn dec_list_elems(bytes: Seq<u8>, n: nat) -> Result<(Seq<ListV>, nat), Error>
    decreases bytes.len(), n, 0int,
{
    if n == 0 {
        Ok((Seq::empty(), 0))
    } else {
        match dec_list(bytes) {
            Ok((v, k)) => match dec_list_elems(advance(bytes, k), (n - 1) as nat) {
                Ok((s, en)) => Ok((seq![v] + s, k + en)),
                Err(e) => Err(e),
            },
            Err(e) => Err(e),
        }
    }
}

/// Reading `n` nested record elements, each closed by its own
/// terminator.
pub open spec fn dec_struct_elems(bytes: Seq<u8>, n: nat) -> Result<
    (Seq<Seq<(u32, ValueV)>>, nat),
    Error,
>
    decreases bytes.len(), n, 0int,
{
    if n == 0 {
        Ok((Seq::empty(), 0))
    } else {
        match dec_struct(bytes) {
            Ok((v, k)) => match dec_struct_elems(advance(bytes, k), (n - 1) as nat) {
                Ok((s, en)) => Ok((seq![v] + s, k + en)),
                Err(e) => Err(e),
            },
            Err(e) => Err(e),
        }
    }
}

/// Reading back four little-endian bytes recovers the 32-bit value.
pub proof fn lemma_le32_roundtrip(v: u32, rest: Seq<u8>)
    ensures
        dec_le32(spec_le32(v) + rest) == Ok::<(u32, nat), Error>((v, 4nat)),
{
    let b = spec_le32(v) + rest;
    assert(b[0] == (v % 256) as u8);
    assert(b[1] == ((v / 256) % 256) as u8);
    assert(b[2] == ((v / 0x10000) % 256) as u8);
    assert(b[3] == ((v / 0x1000000) % 256) as u8);
    assert(v % 256 + ((v / 256) % 256) * 256 + ((v / 0x10000) % 256) * 0x10000 + ((v / 0x1000000)
        % 256) * 0x1000000 == v) by (bit_vector);
}

/// Reading back eight little-endian bytes recovers the 64-bit value.
pub proof fn lemma_le64_roundtrip(v: u64, rest: Seq<u8>)
    ensures
        dec_le64(spec_le64(v) + rest) == Ok::<(u64, nat), Error>((v, 8nat)),
{
    let b = spec_le64(v) + rest;
    assert(b[0] == (v % 256) as u8);
    assert(b[1] == ((v / 256) % 256) as u8);
    assert(b[2] == ((v / 0x10000) % 256) as u8);
    assert(b[3] == ((v / 0x1000000) % 256) as u8);
    assert(b[4] == ((v / 0x100000000) % 256) as u8);
    assert(b[5] == ((v / 0x10000000000) % 256) as u8);
    assert(b[6] == ((v / 0x1000000000000) % 256) as u8);
    assert(b[7] == ((v / 0x100000000000000) % 256) as u8);
    assert(v % 256 + ((v / 256) % 256) * 256 + ((v / 0x10000) % 256) * 0x10000 + ((v / 0x1000000)
        % 256) * 0x1000000 + ((v / 0x100000000) % 256) * 0x100000000 + ((v / 0x10000000000) % 256)
        * 0x10000000000 + ((v / 0x1000000000000) % 256) * 0x1000000000000 + ((v
        / 0x100000000000000) % 256) * 0x100000000000000 == v) by (bit_vector);
}

/// Reading back a packed header recovers the id and the tag exactly,
/// whether the id rode inline or behind the escape nibble.
pub proof fn lemma_header_roundtrip(id: u32, tag: u8, rest: Seq<u8>)
    requires
        tag < 16,
    ensures
        dec_header(spec_header(id, tag) + rest) == Ok::<(u32, u8, nat), Error>(
            (id, tag, spec_header(id, tag).len()),
        ),
{
    let b = spec_header(id, tag) + rest;
    if id < 15 {
        assert(b[0] == (id * 16 + tag) as u8);
        assert((id * 16 + tag) % 16 == tag) by (nonlinear_arith)
            requires
                tag < 16,
                id < 15,
        ;
        assert((id * 16 + tag) / 16 == id) by (nonlinear_arith)
            requires
                tag < 16,
                id < 15,
        ;
    } else {
        assert(b[0] == (15 * 16 + tag) as u8);
        assert((240 + tag) % 16 == tag);
        assert((240 + tag) / 16 == 15);
        crate::leb128::lemma_varint_roundtrip((id - 15) as u64, rest);
        assert(b.skip(1) =~= spec_varint((id - 15) as u64) + rest);
    }
}

/// The escape boundary: ids 0 to 14 pack into a single header byte;
/// id 15 and above take the escape nibble and the varint of `id - 15`
/// behind it.
pub proof fn lemma_header_escape_boundary(id: u32, tag: u8)
    requires
        tag < 16,
    ensures
        (id < 15) <==> (spec_header(id, tag).len() == 1),
        id >= 15 ==> spec_header(id, tag) == seq![(240 + tag) as u8] + spec_varint(
            (id - 15) as u64,
        ),
{
}

/// Reading back a length-prefixed byte payload recovers the bytes.
pub proof fn lemma_bytes_roundtrip(b: Seq<u8>, rest: Seq<u8>)
    requires
        b.len() <= u32::MAX,
    ensures
        dec_bytes(enc_len_prefixed(b) + rest) == Ok::<(Seq<u8>, nat), Error>(
            (b, enc_len_prefixed(b).len()),
        ),
{
    let lenv = b.len() as u64;
    let bytes = enc_len_prefixed(b) + rest;
    assert(bytes =~= spec_varint(lenv) + (b + rest));
    crate::leb128::lemma_varint_roundtrip(lenv, b + rest);
    let n = spec_varint(lenv).len();
    assert(bytes.subrange(n as int, n + lenv) =~= b);
}

/// Reading back a length-prefixed string payload recovers the
/// characters: the encoder's UTF-8 bytes are valid, and decoding them
/// undoes the encoding.
pub proof fn lemma_str_roundtrip(s: Seq<char>, rest: Seq<u8>)
    requires
        vstd::utf8::encode_utf8(s).len() <= u32::MAX,
    ensures
        dec_str(enc_str(s) + rest) == Ok::<(Seq<char>, nat), Error>((s, enc_str(s).len())),
{
    lemma_bytes_roundtrip(vstd::utf8::encode_utf8(s), rest);
    vstd::utf8::encode_utf8_valid_utf8(s);
    vstd::utf8::encode_utf8_decode_utf8(s);
}

/// Reading back an encoded payload recovers the value and consumes
/// exactly the payload's bytes, whatever follows it.
pub proof fn lemma_payload_roundtrip(v: ValueV, rest: Seq<u8>)
    requires
        wf_value(v),
    ensures
        dec_payload(enc_payload(v) + rest, spec_tag(v)) == Ok::<(ValueV, nat), Error>(
            (v, enc_payload(v).len()),
        ),
    decreases v,
{
    match v {
        ValueV::Bool(_) => {
            assert(enc_payload(v) + rest =~= rest);
        },
        ValueV::F32(bits) => {
            lemma_le32_roundtrip(bits, rest);
        },
        ValueV::F64(bits) => {
            lemma_le64_roundtrip(bits, rest);
        },
        ValueV::Int(n) => {
            crate::leb128::lemma_varint_roundtrip(spec_zigzag(n), rest);
            crate::zig_zag::lemma_zigzag_bijection(n, 0);
        },
        ValueV::UInt(n) => {
            crate::leb128::lemma_varint_roundtrip(n, rest);
        },
        ValueV::Str(s) => {
            lemma_str_roundtrip(s, rest);
        },
        ValueV::Bytes(b) => {
            lemma_bytes_roundtrip(b, rest);
        },
        ValueV::List(l) => {
            lemma_list_roundtrip(l, rest);
        },
        ValueV::Struct(fs) => {
            lemma_struct_roundtrip(fs, rest);
        },
    }
}

/// Reading back an encoded record recovers its field sequence and stops
/// exactly at its own terminator, whatever follows it.
#[verifier::rlimit(60)]
pub proof fn lemma_struct_roundtrip(fs: Seq<(u32, ValueV)>, rest: Seq<u8>)
    requires
        wf_fields(fs),
    ensures
        dec_struct(enc_struct(fs) + rest) == Ok::<(Seq<(u32, ValueV)>, nat), Error>(
            (fs, enc_struct(fs).len()),
        ),
    decreases fs,
{
    let bytes = enc_struct(fs) + rest;
    if fs.len() == 0 {
        assert(bytes =~= seq![terminator()] + rest);
        assert(bytes[0] == 10u8);
        assert(fs =~= Seq::empty());
    } else {
        let id = fs[0].0;
        let v = fs[0].1;
        let tl = fs.drop_first();
        let tag = spec_tag(v);
        let hdr = spec_header(id, tag);
        let pl = enc_payload(v);
        assert(tag <= 9);
        assert(bytes =~= hdr + (pl + (enc_struct(tl) + rest)));
        lemma_header_roundtrip(id, tag, pl + (enc_struct(tl) + rest));
        assert(advance(bytes, hdr.len()) =~= pl + (enc_struct(tl) + rest));
        lemma_payload_roundtrip(v, enc_struct(tl) + rest);
        assert(advance(bytes, hdr.len() + pl.len()) =~= enc_struct(tl) + rest);
        lemma_struct_roundtrip(tl, rest);
        assert(seq![(id, v)] + tl =~= fs);
        assert(enc_struct(fs).len() == hdr.len() + pl.len() + enc_struct(tl).len());
    }
}

/// Reading back an encoded list recovers it and consumes exactly its
/// bytes.
#[verifier::rlimit(60)]
pub proof fn lemma_list_roundtrip(l: ListV, rest: Seq<u8>)
    requires
        wf_list(l),
    ensures
        dec_list(enc_list(l) + rest) == Ok::<(ListV, nat), Error>((l, enc_list(l).len())),
    decreases l,
{
    let count = spec_list_len(l) as u32;
    let tag = spec_elem_tag(l);
    let hdr = spec_header(count, tag);
    let bytes = enc_list(l) + rest;
    let tail = enc_list_body(l) + rest;
    assert(bytes =~= hdr + tail);
    lemma_header_roundtrip(count, tag, tail);
    assert(advance(bytes, hdr.len()) =~= tail);
    match l {
        ListV::Bool(s) => {
            lemma_bool_elems_roundtrip(s, rest);
        },
        ListV::F32(s) => {
            lemma_f32_elems_roundtrip(s, rest);
        },
        ListV::F64(s) => {
            lemma_f64_elems_roundtrip(s, rest);
        },
        ListV::Int(s) => {
            lemma_int_elems_roundtrip(s, rest);
        },
        ListV::UInt(s) => {
            lemma_uint_elems_roundtrip(s, rest);
        },
        ListV::Str(s) => {
            lemma_str_elems_roundtrip(s, rest);
        },
        ListV::Bytes(s) => {
            lemma_bytes_elems_roundtrip(s, rest);
        },
        ListV::List(s) => {
            lemma_list_elems_roundtrip(s, rest);
        },
        ListV::Struct(s) => {
            lemma_struct_elems_roundtrip(s, rest);
        },
    }
}

proof fn lemma_bool_elems_roundtrip(s: Seq<bool>, rest: Seq<u8>)
    ensures
        dec_bool_elems(enc_bool_elems(s) + rest, s.len()) == Ok::<(Seq<bool>, nat), Error>(
            (s, enc_bool_elems(s).len()),
        ),
    decreases s,
{
    let bytes = enc_bool_elems(s) + rest;
    if s.len() == 0 {
        assert(bytes =~= rest);
        assert(s =~= Seq::empty());
    } else {
        assert(bytes[0] == spec_bool_byte(s[0]));
        assert(bytes.skip(1) =~= enc_bool_elems(s.drop_first()) + rest);
        lemma_bool_elems_roundtrip(s.drop_first(), rest);
        assert((bytes[0] != 0) == s[0]);
        assert(seq![s[0]] + s.drop_first() =~= s);
    }
}

proof fn lemma_f32_elems_roundtrip(s: Seq<u32>, rest: Seq<u8>)
    ensures
        dec_f32_elems(enc_f32_elems(s) + rest, s.len()) == Ok::<(Seq<u32>, nat), Error>(
            (s, enc_f32_elems(s).len()),
        ),
    decreases s,
{
    let bytes = enc_f32_elems(s) + rest;
    if s.len() == 0 {
        assert(bytes =~= rest);
        assert(s =~= Seq::empty());
    } else {
        assert(bytes =~= spec_le32(s[0]) + (enc_f32_elems(s.drop_first()) + rest));
        lemma_le32_roundtrip(s[0], enc_f32_elems(s.drop_first()) + rest);
        assert(advance(bytes, 4) =~= enc_f32_elems(s.drop_first()) + rest);
        lemma_f32_elems_roundtrip(s.drop_first(), rest);
        assert(seq![s[0]] + s.drop_first() =~= s);
    }
}

proof fn lemma_f64_elems_roundtrip(s: Seq<u64>, rest: Seq<u8>)
    ensures
        dec_f64_elems(enc_f64_elems(s) + rest, s.len()) == Ok::<(Seq<u64>, nat), Error>(
            (s, enc_f64_elems(s).len()),
        ),
    decreases s,
{
    let bytes = enc_f64_elems(s) + rest;
    if s.len() == 0 {
        assert(bytes =~= rest);
        assert(s =~= Seq::empty());
    } else {
        assert(bytes =~= spec_le64(s[0]) + (enc_f64_elems(s.drop_first()) + rest));
        lemma_le64_roundtrip(s[0], enc_f64_elems(s.drop_first()) + rest);
        assert(advance(bytes, 8) =~= enc_f64_elems(s.drop_first()) + rest);
        lemma_f64_elems_roundtrip(s.drop_first(), rest);
        assert(seq![s[0]] + s.drop_first() =~= s);
    }
}

proof fn lemma_int_elems_roundtrip(s: Seq<i64>, rest: Seq<u8>)
    ensures
        dec_int_elems(enc_int_elems(s) + rest, s.len()) == Ok::<(Seq<i64>, nat), Error>(
            (s, enc_int_elems(s).len()),
        ),
    decreases s,
{
    let bytes = enc_int_elems(s) + rest;
    if s.len() == 0 {
        assert(bytes =~= rest);
        assert(s =~= Seq::empty());
    } else {
        let u = spec_zigzag(s[0]);
        let tail = enc_int_elems(s.drop_first()) + rest;
        assert(bytes =~= spec_varint(u) + tail);
        crate::leb128::lemma_varint_roundtrip(u, tail);
        crate::zig_zag::lemma_zigzag_bijection(s[0], 0);
        assert(advance(bytes, spec_varint(u).len()) =~= tail);
        lemma_int_elems_roundtrip(s.drop_first(), rest);
        assert(seq![s[0]] + s.drop_first() =~= s);
    }
}

proof fn lemma_uint_elems_roundtrip(s: Seq<u64>, rest: Seq<u8>)
    ensures
        dec_uint_elems(enc_uint_elems(s) + rest, s.len()) == Ok::<(Seq<u64>, nat), Error>(
            (s, enc_uint_elems(s).len()),
        ),
    decreases s,
{
    let bytes = enc_uint_elems(s) + rest;
    if s.len() == 0 {
        assert(bytes =~= rest);
        assert(s =~= Seq::empty());
    } else {
        let tail = enc_uint_elems(s.drop_first()) + rest;
        assert(bytes =~= spec_varint(s[0]) + tail);
        crate::leb128::lemma_varint_roundtrip(s[0], tail);
        assert(advance(bytes, spec_varint(s[0]).len()) =~= tail);
        lemma_uint_elems_roundtrip(s.drop_first(), rest);
        assert(seq![s[0]] + s.drop_first() =~= s);
    }
}

proof fn lemma_str_elems_roundtrip(s: Seq<Seq<char>>, rest: Seq<u8>)
    requires
        wf_str_elems(s),
    ensures
        dec_str_elems(enc_str_elems(s) + rest, s.len()) == Ok::<(Seq<Seq<char>>, nat), Error>(
            (s, enc_str_elems(s).len()),
        ),
    decreases s,
{
    let bytes = enc_str_elems(s) + rest;
    if s.len() == 0 {
        assert(bytes =~= rest);
        assert(s =~= Seq::empty());
    } else {
        let tail = enc_str_elems(s.drop_first()) + rest;
        assert(bytes =~= enc_str(s[0]) + tail);
        lemma_str_roundtrip(s[0], tail);
        assert(advance(bytes, enc_str(s[0]).len()) =~= tail);
        lemma_str_elems_roundtrip(s.drop_first(), rest);
        assert(seq![s[0]] + s.drop_first() =~= s);
    }
}

proof fn lemma_bytes_elems_roundtrip(s: Seq<Seq<u8>>, rest: Seq<u8>)
    requires
        wf_bytes_elems(s),
    ensures
        dec_bytes_elems(enc_bytes_elems(s) + rest, s.len()) == Ok::<(Seq<Seq<u8>>, nat), Error>(
            (s, enc_bytes_elems(s).len()),
        ),
    decreases s,
{
    let bytes = enc_bytes_elems(s) + rest;
    if s.len() == 0 {
        assert(bytes =~= rest);
        assert(s =~= Seq::empty());
    } else {
        let tail = enc_bytes_elems(s.drop_first()) + rest;
        assert(bytes =~= enc_len_prefixed(s[0]) + tail);
        lemma_bytes_roundtrip(s[0], tail);
        assert(advance(bytes, enc_len_prefixed(s[0]).len()) =~= tail);
        lemma_bytes_elems_roundtrip(s.drop_first(), rest);
        assert(seq![s[0]] + s.drop_first() =~= s);
    }
}

proof fn lemma_list_elems_roundtrip(s: Seq<ListV>, rest: Seq<u8>)
    requires
        wf_list_elems(s),
    ensures
        dec_list_elems(enc_list_elems(s) + rest, s.len()) == Ok::<(Seq<ListV>, nat), Error>(
            (s, enc_list_elems(s).len()),
        ),
    decreases s,
{
    let bytes = enc_list_elems(s) + rest;
    if s.len() == 0 {
        assert(bytes =~= rest);
        assert(s =~= Seq::empty());
    } else {
        let tail = enc_list_elems(s.drop_first()) + rest;
        assert(bytes =~= enc_list(s[0]) + tail);
        lemma_list_roundtrip(s[0], tail);
        assert(advance(bytes, enc_list(s[0]).len()) =~= tail);
        lemma_list_elems_roundtrip(s.drop_first(), rest);
        assert(seq![s[0]] + s.drop_first() =~= s);
    }
}

proof fn lemma_struct_elems_roundtrip(s: Seq<Seq<(u32, ValueV)>>, rest: Seq<u8>)
    requires
        wf_struct_elems(s),
    ensures
        dec_struct_elems(enc_struct_elems(s) + rest, s.len()) == Ok::<
            (Seq<Seq<(u32, ValueV)>>, nat),
            Error,
        >((s, enc_struct_elems(s).len())),
    decreases s,
{
    let bytes = enc_struct_elems(s) + rest;
    if s.len() == 0 {
        assert(bytes =~= rest);
        assert(s =~= Seq::empty());
    } else {
        let tail = enc_struct_elems(s.drop_first()) + rest;
        assert(bytes =~= enc_struct(s[0]) + tail);
        lemma_struct_roundtrip(s[0], tail);
        assert(advance(bytes, enc_struct(s[0]).len()) =~= tail);
        lemma_struct_elems_roundtrip(s.drop_first(), rest);
        assert(seq![s[0]] + s.drop_first() =~= s);
    }
}

/// Wire limits on a value: string, byte and list lengths must fit the
/// 32-bit length slots the format gives them.
pub open spec fn wf_value(v: ValueV) -> bool
    decreases v,
{
    match v {
        ValueV::Bool(_) => true,
        ValueV::F32(_) => true,
        ValueV::F64(_) => true,
        ValueV::Int(_) => true,
        ValueV::UInt(_) => true,
        ValueV::Str(s) => vstd::utf8::encode_utf8(s).len() <= u32::MAX,
        ValueV::Bytes(b) => b.len() <= u32::MAX,
        ValueV::List(l) => wf_list(l),
        ValueV::Struct(fs) => wf_fields(fs),
    }
}

pub open spec fn wf_fields(fs: Seq<(u32, ValueV)>) -> bool
    decreases fs,
{
    if fs.len() == 0 {
        true
    } else {
        wf_value(fs[0].1) && wf_fields(fs.drop_first())
    }
}

pub open spec fn wf_list(l: ListV) -> bool
    decreases l,
{
    spec_list_len(l) <= u32::MAX && match l {
        ListV::Bool(_) => true,
        ListV::F32(_) => true,
        ListV::F64(_) => true,
        ListV::Int(_) => true,
        ListV::UInt(_) => true,
        ListV::Str(s) => wf_str_elems(s),
        ListV::Bytes(s) => wf_bytes_elems(s),
        ListV::List(s) => wf_list_elems(s),
        ListV::Struct(s) => wf_struct_elems(s),
    }
}

pub open spec fn wf_str_elems(s: Seq<Seq<char>>) -> bool
    decreases s,
{
    if s.len() == 0 {
        true
    } else {
        vstd::utf8::encode_utf8(s[0]).len() <= u32::MAX && wf_str_elems(s.drop_first())
    }
}

pub open spec fn wf_bytes_elems(s: Seq<Seq<u8>>) -> bool
    decreases s,
{
    if s.len() == 0 {
        true
    } else {
        s[0].len() <= u32::MAX && wf_bytes_elems(s.drop_first())
    }
}

pub open spec fn wf_list_elems(s: Seq<ListV>) -> bool
    decreases s,
{
    if s.len() == 0 {
        true
    } else {
        wf_list(s[0]) && wf_list_elems(s.drop_first())
    }
}

pub open spec fn wf_struct_elems(s: Seq<Seq<(u32, ValueV)>>) -> bool
    decreases s,
{
    if s.len() == 0 {
        true
    } else {
        wf_fields(s[0]) && wf_struct_elems(s.drop_first())
    }
}

} // verus!
