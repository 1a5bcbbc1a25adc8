//! The structural decoder: bytes in, an untyped value tree out.
//!
//! A decoded [`Value`] owns its payloads; its mathematical content is
//! the [`ValueV`] tree its view gives, and every parse function's
//! contract ties what it returned and consumed to the `dec_*` functions
//! of the wire-format specification.

use vstd::prelude::*;
use vstd::string::StringSliceAdditionalSpecFns;

use crate::errors::{Error, Kind};
use crate::leb128::read_unsigned;
use crate::utils::{read_buf, read_byte};
use crate::wire::{
    dec_bool_elems, dec_bytes, dec_bytes_elems, dec_f32_elems, dec_f64_elems, dec_header,
    dec_int_elems, dec_le32, dec_le64, dec_list, dec_list_elems, dec_str, dec_str_elems,
    dec_struct, dec_struct_elems, dec_uint_elems, ListV, ValueV,
};

verus! {

/// One decoded field value. Floating-point payloads are held as their
/// little-endian bit patterns; strings and byte strings own their
/// contents.
#[derive(Debug, PartialEq)]
pub enum Value {
    Bool(bool),
    F32(u32),
    F64(u64),
    Int(i64),
    UInt(u64),
    Str(String),
    Bytes(Vec<u8>),
    List(List),
    Struct(crate::entries::Entries),
}

/// A decoded homogeneous list: one element kind per list value.
#[derive(Debug, PartialEq)]
pub enum List {
    Bool(Vec<bool>),
    F32(Vec<u32>),
    F64(Vec<u64>),
    Int(Vec<i64>),
    UInt(Vec<u64>),
    Str(Vec<String>),
    Bytes(Vec<Vec<u8>>),
    List(Vec<List>),
    Struct(Vec<Vec<(u32, Value)>>),
}

/// The abstract tree a decoded value denotes.
pub open spec fn view_value(v: Value) -> ValueV
    decreases v, 0int,
{
    match v {
        Value::Bool(b) => ValueV::Bool(b),
        Value::F32(bits) => ValueV::F32(bits),
        Value::F64(bits) => ValueV::F64(bits),
        Value::Int(n) => ValueV::Int(n),
        Value::UInt(n) => ValueV::UInt(n),
        Value::Str(s) => ValueV::Str(s@),
        Value::Bytes(b) => ValueV::Bytes(b@),
        Value::List(l) => ValueV::List(view_list(l)),
        Value::Struct(e) => ValueV::Struct(view_fields(e.0@)),
    }
}

/// The abstract field sequence a decoded field list denotes.
pub open spec fn view_fields(fs: Seq<(u32, Value)>) -> Seq<(u32, ValueV)>
    decreases fs, 1int,
{
    if fs.len() == 0 {
        Seq::empty()
    } else {
        seq![(fs[0].0, view_value(fs[0].1))] + view_fields(fs.drop_first())
    }
}

/// The abstract list a decoded list denotes.
pub open spec fn view_list(l: List) -> ListV
    decreases l, 0int,
{
    match l {
        List::Bool(v) => ListV::Bool(v@),
        List::F32(v) => ListV::F32(v@),
        List::F64(v) => ListV::F64(v@),
        List::Int(v) => ListV::Int(v@),
        List::UInt(v) => ListV::UInt(v@),
        List::Str(v) => ListV::Str(v@.map_values(|x: String| x@)),
        List::Bytes(v) => ListV::Bytes(v@.map_values(|x: Vec<u8>| x@)),
        List::List(v) => ListV::List(view_lists(v@)),
        List::Struct(v) => ListV::Struct(view_structs(v@)),
    }
}

/// The abstract element sequence of a list of lists.
pub open spec fn view_lists(s: Seq<List>) -> Seq<ListV>
    decreases s, 1int,
{
    if s.len() == 0 {
        Seq::empty()
    } else {
        seq![view_list(s[0])] + view_lists(s.drop_first())
    }
}

/// The abstract element sequence of a list of records.
pub open spec fn view_structs(s: Seq<Vec<(u32, Value)>>) -> Seq<Seq<(u32, ValueV)>>
    decreases s, 1int,
{
    if s.len() == 0 {
        Seq::empty()
    } else {
        seq![view_fields(s[0]@)] + view_structs(s.drop_first())
    }
}

/// A field run views to as many abstract fields.
pub proof fn lemma_view_fields_len(fs: Seq<(u32, Value)>)
    ensures
        view_fields(fs).len() == fs.len(),
    decreases fs.len(),
{
    if fs.len() > 0 {
        lemma_view_fields_len(fs.drop_first());
    }
}

impl View for Value {
    type V = ValueV;

    open spec fn view(&self) -> ValueV {
        view_value(*self)
    }
}

impl View for List {
    type V = ListV;

    open spec fn view(&self) -> ListV {
        view_list(*self)
    }
}

impl Value {
    /// The kind this value would report in a type-mismatch error.
    pub fn kind(&self) -> (r: Kind)
        ensures
            r == crate::errors::spec_kind(self@),
    {
        match self {
            Value::Bool(_) => Kind::Bool,
            Value::F32(_) => Kind::F32,
            Value::F64(_) => Kind::F64,
            Value::Int(_) => Kind::Int,
            Value::UInt(_) => Kind::UInt,
            Value::Str(_) => Kind::Str,
            Value::Bytes(_) => Kind::Bytes,
            Value::Struct(_) => Kind::Struct,
            Value::List(list) => match list {
                List::Bool(_) => Kind::ListBool,
                List::F32(_) => Kind::ListF32,
                List::F64(_) => Kind::ListF64,
                List::Int(_) => Kind::ListInt,
                List::UInt(_) => Kind::ListUInt,
                List::Str(_) => Kind::ListStr,
                List::Bytes(_) => Kind::ListBytes,
                List::List(_) => Kind::ListList,
                List::Struct(_) => Kind::ListStruct,
            },
        }
    }
}

impl Value {
    /// Looks `key` up in a raw field sequence and converts the first
    /// match into `T`; an absent key is `Ok(None)`.
    pub fn try_get<'e, T: crate::convert::ConvertFrom<&'e Value>>(
        key: u32,
        entries: &'e Vec<(u32, Value)>,
    ) -> (r: Result<Option<T>, crate::errors::ConvertError>)
        ensures
            match r {
                Ok(ox) => match ox {
                    None => crate::entries::spec_get(view_fields(entries@), key) is None,
                    Some(x) => crate::entries::spec_get(view_fields(entries@), key) matches Some(v)
                        && T::convert_spec(v, Ok::<T, crate::errors::ConvertError>(x)),
                },
                Err(e) => crate::entries::spec_get(view_fields(entries@), key) matches Some(v)
                    && T::convert_spec(v, Err::<T, crate::errors::ConvertError>(e)),
            },
    {
        proof {
            assert(entries@.skip(0) =~= entries@);
        }
        let mut i: usize = 0;
        while i < entries.len()
            invariant
                i <= entries@.len(),
                crate::entries::spec_get(view_fields(entries@), key) == crate::entries::spec_get(
                    view_fields(entries@.skip(i as int)),
                    key,
                ),
            decreases entries@.len() - i,
        {
            proof {
                assert(entries@.skip(i as int).drop_first() =~= entries@.skip(i + 1));
                assert(view_fields(entries@.skip(i as int))[0] == (
                    entries@[i as int].0,
                    view_value(entries@[i as int].1),
                ));
                assert(view_fields(entries@.skip(i as int)).drop_first() =~= view_fields(
                    entries@.skip(i + 1),
                ));
            }
            let pair = vstd::slice::slice_index_get(entries.as_slice(), i);
            if pair.0 == key {
                return match T::convert_from(&pair.1) {
                    Ok(x) => Ok(Some(x)),
                    Err(e) => Err(e),
                };
            }
            i = i + 1;
        }
        proof {
            assert(entries@.skip(entries@.len() as int) =~= Seq::<(u32, Value)>::empty());
            assert(view_fields(Seq::<(u32, Value)>::empty()) =~= Seq::<(u32, ValueV)>::empty());
        }
        Ok(None)
    }
}

/// Narrows a 64-bit number to 32 bits, or reports it out of range.
pub fn try_into_u32(num: u64) -> (r: Result<u32, Error>)
    ensures
        match r {
            Ok(v) => num <= u32::MAX && v as u64 == num,
            Err(e) => num > u32::MAX && e == Error::NumericOverflow,
        },
{
    if num <= 0xFFFF_FFFFu64 {
        Ok(num as u32)
    } else {
        Err(crate::errors::invalid_input())
    }
}

/// Reads one field header: the id (or count) and the type tag.
pub fn decode_field_ty(input: &[u8], pos: &mut usize) -> (r: Result<(u32, u8), Error>)
    requires
        *old(pos) <= input@.len(),
    ensures
        *old(pos) <= *final(pos) <= input@.len(),
        match r {
            Ok((id, ty)) => {
                &&& dec_header(input@.skip(*old(pos) as int)) == Ok::<(u32, u8, nat), Error>(
                    (id, ty, (*final(pos) - *old(pos)) as nat),
                )
                &&& *final(pos) > *old(pos)
            },
            Err(e) => dec_header(input@.skip(*old(pos) as int)) == Err::<(u32, u8, nat), Error>(e),
        },
{
    let ghost s = input@.skip(*pos as int);
    let byte = match read_byte(input, pos) {
        Ok(b) => b,
        Err(e) => {
            return Err(e);
        },
    };
    assert(s[0] == byte);
    let ty = byte % 16;
    let hi = (byte / 16) as u32;
    if hi == 15 {
        let ghost mid = *pos;
        assert(input@.skip(mid as int) =~= s.skip(1));
        let v = match read_unsigned(input, pos) {
            Ok(v) => v,
            Err(e) => {
                return Err(e);
            },
        };
        if v <= 0xFFFF_FFFFu64 - 15 {
            Ok(((v + 15) as u32, ty))
        } else {
            Err(crate::errors::invalid_input())
        }
    } else {
        Ok((hi, ty))
    }
}

/// Reads a four-byte little-endian value.
fn read_le32(input: &[u8], pos: &mut usize) -> (r: Result<u32, Error>)
    requires
        *old(pos) <= input@.len(),
    ensures
        *old(pos) <= *final(pos) <= input@.len(),
        match r {
            Ok(v) => dec_le32(input@.skip(*old(pos) as int)) == Ok::<(u32, nat), Error>(
                (v, (*final(pos) - *old(pos)) as nat),
            ),
            Err(e) => dec_le32(input@.skip(*old(pos) as int)) == Err::<(u32, nat), Error>(e),
        },
{
    let ghost s = input@.skip(*pos as int);
    let b = match read_buf(input, pos, 4) {
        Ok(b) => b,
        Err(e) => {
            assert(s.len() < 4);
            return Err(e);
        },
    };
    assert(b@ =~= s.subrange(0, 4));
    let v = (b[0] as u32) + (b[1] as u32) * 256 + (b[2] as u32) * 0x10000 + (b[3] as u32)
        * 0x1000000;
    Ok(v)
}

/// Reads an eight-byte little-endian value.
fn read_le64(input: &[u8], pos: &mut usize) -> (r: Result<u64, Error>)
    requires
        *old(pos) <= input@.len(),
    ensures
        *old(pos) <= *final(pos) <= input@.len(),
        match r {
            Ok(v) => dec_le64(input@.skip(*old(pos) as int)) == Ok::<(u64, nat), Error>(
                (v, (*final(pos) - *old(pos)) as nat),
            ),
            Err(e) => dec_le64(input@.skip(*old(pos) as int)) == Err::<(u64, nat), Error>(e),
        },
{
    let ghost s = input@.skip(*pos as int);
    let b = match read_buf(input, pos, 8) {
        Ok(b) => b,
        Err(e) => {
            assert(s.len() < 8);
            return Err(e);
        },
    };
    assert(b@ =~= s.subrange(0, 8));
    let v = (b[0] as u64) + (b[1] as u64) * 256 + (b[2] as u64) * 0x10000 + (b[3] as u64)
        * 0x1000000 + (b[4] as u64) * 0x100000000 + (b[5] as u64) * 0x10000000000 + (b[6] as u64)
        * 0x1000000000000 + (b[7] as u64) * 0x100000000000000;
    Ok(v)
}

/// Reads a length-prefixed byte payload into a fresh buffer.
pub fn parse_bytes(input: &[u8], pos: &mut usize) -> (r: Result<Vec<u8>, Error>)
    requires
        *old(pos) <= input@.len(),
    ensures
        *old(pos) <= *final(pos) <= input@.len(),
        match r {
            Ok(b) => dec_bytes(input@.skip(*old(pos) as int)) == Ok::<(Seq<u8>, nat), Error>(
                (b@, (*final(pos) - *old(pos)) as nat),
            ),
            Err(e) => dec_bytes(input@.skip(*old(pos) as int)) == Err::<(Seq<u8>, nat), Error>(e),
        },
{
    let ghost s = input@.skip(*pos as int);
    let lenu = match read_unsigned(input, pos) {
        Ok(v) => v,
        Err(e) => {
            return Err(e);
        },
    };
    let len32 = match try_into_u32(lenu) {
        Ok(v) => v,
        Err(e) => {
            return Err(e);
        },
    };
    let ghost mid = *pos;
    match read_buf(input, pos, len32 as usize) {
        Ok(b) => {
            proof {
                let n = (mid - *old(pos)) as nat;
                assert(input@.subrange(mid as int, mid + len32) =~= s.subrange(
                    n as int,
                    n + lenu,
                ));
            }
            Ok(b)
        },
        Err(e) => {
            Err(e)
        },
    }
}

/// Relies on str::from_utf8: it returns Ok exactly when the bytes are
/// valid UTF-8, and the resulting slice views those very bytes.
#[verifier::external_body]
fn try_from_utf8<'a>(v: &'a [u8]) -> (r: Option<&'a str>)
    ensures
        r is Some <==> vstd::utf8::valid_utf8(v@),
        match r {
            Some(s) => s.spec_bytes() == v@,
            None => true,
        },
{
    core::str::from_utf8(v).ok()
}

/// Reads a length-prefixed string payload, validating it as UTF-8.
pub fn parse_string(input: &[u8], pos: &mut usize) -> (r: Result<String, Error>)
    requires
        *old(pos) <= input@.len(),
    ensures
        *old(pos) <= *final(pos) <= input@.len(),
        match r {
            Ok(st) => dec_str(input@.skip(*old(pos) as int)) == Ok::<(Seq<char>, nat), Error>(
                (st@, (*final(pos) - *old(pos)) as nat),
            ),
            Err(e) => dec_str(input@.skip(*old(pos) as int)) == Err::<(Seq<char>, nat), Error>(e),
        },
{
    let b = match parse_bytes(input, pos) {
        Ok(b) => b,
        Err(e) => {
            return Err(e);
        },
    };
    match try_from_utf8(b.as_slice()) {
        Some(st) => {
            proof {
                vstd::utf8::encode_utf8_decode_utf8(st@);
            }
            Ok(st.to_owned())
        },
        None => Err(Error::InvalidUtf8),
    }
}

pub proof fn lemma_view_fields_push(fs: Seq<(u32, Value)>, x: (u32, Value))
    ensures
        view_fields(fs.push(x)) == view_fields(fs) + seq![(x.0, view_value(x.1))],
    decreases fs.len(),
{
    if fs.len() == 0 {
        assert(fs.push(x).drop_first() =~= fs);
        assert(view_fields(fs.push(x)) =~= view_fields(fs) + seq![(x.0, view_value(x.1))]);
    } else {
        lemma_view_fields_push(fs.drop_first(), x);
        assert(fs.push(x).drop_first() =~= fs.drop_first().push(x));
        assert(view_fields(fs.push(x)) =~= view_fields(fs) + seq![(x.0, view_value(x.1))]);
    }
}

proof fn lemma_view_lists_push(s: Seq<List>, x: List)
    ensures
        view_lists(s.push(x)) == view_lists(s) + seq![view_list(x)],
    decreases s.len(),
{
    if s.len() == 0 {
        assert(s.push(x).drop_first() =~= s);
        assert(view_lists(s.push(x)) =~= view_lists(s) + seq![view_list(x)]);
    } else {
        lemma_view_lists_push(s.drop_first(), x);
        assert(s.push(x).drop_first() =~= s.drop_first().push(x));
        assert(view_lists(s.push(x)) =~= view_lists(s) + seq![view_list(x)]);
    }
}

proof fn lemma_view_structs_push(s: Seq<Vec<(u32, Value)>>, x: Vec<(u32, Value)>)
    ensures
        view_structs(s.push(x)) == view_structs(s) + seq![view_fields(x@)],
    decreases s.len(),
{
    if s.len() == 0 {
        assert(s.push(x).drop_first() =~= s);
        assert(view_structs(s.push(x)) =~= view_structs(s) + seq![view_fields(x@)]);
    } else {
        lemma_view_structs_push(s.drop_first(), x);
        assert(s.push(x).drop_first() =~= s.drop_first().push(x));
        assert(view_structs(s.push(x)) =~= view_structs(s) + seq![view_fields(x@)]);
    }
}

fn parse_bool_elems(input: &[u8], pos: &mut usize, len: u32) -> (r: Result<Vec<bool>, Error>)
    requires
        *old(pos) <= input@.len(),
    ensures
        *old(pos) <= *final(pos) <= input@.len(),
        match r {
            Ok(v) => dec_bool_elems(input@.skip(*old(pos) as int), len as nat) == Ok::<
                (Seq<bool>, nat),
                Error,
            >((v@, (*final(pos) - *old(pos)) as nat)),
            Err(e) => dec_bool_elems(input@.skip(*old(pos) as int), len as nat) == Err::<
                (Seq<bool>, nat),
                Error,
            >(e),
        },
    decreases input@.len() - *pos, 1int,
{
    let ghost start = *pos;
    let mut arr: Vec<bool> = Vec::new();
    let mut i: u32 = 0;
    while i < len
        invariant
            start == *old(pos),
            start <= *pos <= input@.len(),
            i <= len,
            dec_bool_elems(input@.skip(start as int), len as nat) == (match dec_bool_elems(
                input@.skip(*pos as int),
                (len - i) as nat,
            ) {
                Ok((s, n)) => Ok::<(Seq<bool>, nat), Error>(
                    (arr@ + s, ((*pos - start) + n) as nat),
                ),
                Err(e) => Err::<(Seq<bool>, nat), Error>(e),
            }),
        decreases len - i,
    {
        let ghost p0 = *pos;
        let ghost arr0 = arr@;
        let b = match read_byte(input, pos) {
            Ok(b) => b,
            Err(e) => {
                assert(input@.skip(p0 as int).len() == 0);
                return Err(e);
            },
        };
        arr.push(b != 0);
        proof {
            assert(input@.skip(p0 as int)[0] == b);
            assert(input@.skip(p0 as int).skip(1) =~= input@.skip(*pos as int));
            assert(arr@ =~= arr0 + seq![b != 0]);
            let r_rest = dec_bool_elems(input@.skip(*pos as int), (len - i - 1) as nat);
            if r_rest is Ok {
                let (s, n) = r_rest->Ok_0;
                assert(arr0 + (seq![b != 0] + s) =~= (arr0 + seq![b != 0]) + s);
            }
        }
        i = i + 1;
    }
    assert(arr@ + Seq::<bool>::empty() =~= arr@);
    Ok(arr)
}

fn parse_f32_elems(input: &[u8], pos: &mut usize, len: u32) -> (r: Result<Vec<u32>, Error>)
    requires
        *old(pos) <= input@.len(),
    ensures
        *old(pos) <= *final(pos) <= input@.len(),
        match r {
            Ok(v) => dec_f32_elems(input@.skip(*old(pos) as int), len as nat) == Ok::<
                (Seq<u32>, nat),
                Error,
            >((v@, (*final(pos) - *old(pos)) as nat)),
            Err(e) => dec_f32_elems(input@.skip(*old(pos) as int), len as nat) == Err::<
                (Seq<u32>, nat),
                Error,
            >(e),
        },
    decreases input@.len() - *pos, 1int,
{
    let ghost start = *pos;
    let mut arr: Vec<u32> = Vec::new();
    let mut i: u32 = 0;
    while i < len
        invariant
            start == *old(pos),
            start <= *pos <= input@.len(),
            i <= len,
            dec_f32_elems(input@.skip(start as int), len as nat) == (match dec_f32_elems(
                input@.skip(*pos as int),
                (len - i) as nat,
            ) {
                Ok((s, n)) => Ok::<(Seq<u32>, nat), Error>((arr@ + s, ((*pos - start) + n) as nat)),
                Err(e) => Err::<(Seq<u32>, nat), Error>(e),
            }),
        decreases len - i,
    {
        let ghost p0 = *pos;
        let ghost arr0 = arr@;
        let v = match read_le32(input, pos) {
            Ok(v) => v,
            Err(e) => {
                return Err(e);
            },
        };
        arr.push(v);
        proof {
            assert(crate::wire::advance(input@.skip(p0 as int), (*pos - p0) as nat)
                =~= input@.skip(*pos as int));
            assert(arr@ =~= arr0 + seq![v]);
            let r_rest = dec_f32_elems(input@.skip(*pos as int), (len - i - 1) as nat);
            if r_rest is Ok {
                let (s, n) = r_rest->Ok_0;
                assert(arr0 + (seq![v] + s) =~= (arr0 + seq![v]) + s);
            }
        }
        i = i + 1;
    }
    assert(arr@ + Seq::<u32>::empty() =~= arr@);
    Ok(arr)
}

fn parse_f64_elems(input: &[u8], pos: &mut usize, len: u32) -> (r: Result<Vec<u64>, Error>)
    requires
        *old(pos) <= input@.len(),
    ensures
        *old(pos) <= *final(pos) <= input@.len(),
        match r {
            Ok(v) => dec_f64_elems(input@.skip(*old(pos) as int), len as nat) == Ok::<
                (Seq<u64>, nat),
                Error,
            >((v@, (*final(pos) - *old(pos)) as nat)),
            Err(e) => dec_f64_elems(input@.skip(*old(pos) as int), len as nat) == Err::<
                (Seq<u64>, nat),
                Error,
            >(e),
        },
    decreases input@.len() - *pos, 1int,
{
    let ghost start = *pos;
    let mut arr: Vec<u64> = Vec::new();
    let mut i: u32 = 0;
    while i < len
        invariant
            start == *old(pos),
            start <= *pos <= input@.len(),
            i <= len,
            dec_f64_elems(input@.skip(start as int), len as nat) == (match dec_f64_elems(
                input@.skip(*pos as int),
                (len - i) as nat,
            ) {
                Ok((s, n)) => Ok::<(Seq<u64>, nat), Error>((arr@ + s, ((*pos - start) + n) as nat)),
                Err(e) => Err::<(Seq<u64>, nat), Error>(e),
            }),
        decreases len - i,
    {
        let ghost p0 = *pos;
        let ghost arr0 = arr@;
        let v = match read_le64(input, pos) {
            Ok(v) => v,
            Err(e) => {
                return Err(e);
            },
        };
        arr.push(v);
        proof {
            assert(crate::wire::advance(input@.skip(p0 as int), (*pos - p0) as nat)
                =~= input@.skip(*pos as int));
            assert(arr@ =~= arr0 + seq![v]);
            let r_rest = dec_f64_elems(input@.skip(*pos as int), (len - i - 1) as nat);
            if r_rest is Ok {
                let (s, n) = r_rest->Ok_0;
                assert(arr0 + (seq![v] + s) =~= (arr0 + seq![v]) + s);
            }
        }
        i = i + 1;
    }
    assert(arr@ + Seq::<u64>::empty() =~= arr@);
    Ok(arr)
}

fn parse_int_elems(input: &[u8], pos: &mut usize, len: u32) -> (r: Result<Vec<i64>, Error>)
    requires
        *old(pos) <= input@.len(),
    ensures
        *old(pos) <= *final(pos) <= input@.len(),
        match r {
            Ok(v) => dec_int_elems(input@.skip(*old(pos) as int), len as nat) == Ok::<
                (Seq<i64>, nat),
                Error,
            >((v@, (*final(pos) - *old(pos)) as nat)),
            Err(e) => dec_int_elems(input@.skip(*old(pos) as int), len as nat) == Err::<
                (Seq<i64>, nat),
                Error,
            >(e),
        },
    decreases input@.len() - *pos, 1int,
{
    let ghost start = *pos;
    let mut arr: Vec<i64> = Vec::new();
    let mut i: u32 = 0;
    while i < len
        invariant
            start == *old(pos),
            start <= *pos <= input@.len(),
            i <= len,
            dec_int_elems(input@.skip(start as int), len as nat) == (match dec_int_elems(
                input@.skip(*pos as int),
                (len - i) as nat,
            ) {
                Ok((s, n)) => Ok::<(Seq<i64>, nat), Error>((arr@ + s, ((*pos - start) + n) as nat)),
                Err(e) => Err::<(Seq<i64>, nat), Error>(e),
            }),
        decreases len - i,
    {
        let ghost p0 = *pos;
        let ghost arr0 = arr@;
        let u = match read_unsigned(input, pos) {
            Ok(u) => u,
            Err(e) => {
                return Err(e);
            },
        };
        let v = crate::zig_zag::from(u);
        arr.push(v);
        proof {
            assert(crate::wire::advance(input@.skip(p0 as int), (*pos - p0) as nat)
                =~= input@.skip(*pos as int));
            assert(arr@ =~= arr0 + seq![v]);
            let r_rest = dec_int_elems(input@.skip(*pos as int), (len - i - 1) as nat);
            if r_rest is Ok {
                let (s, n) = r_rest->Ok_0;
                assert(arr0 + (seq![v] + s) =~= (arr0 + seq![v]) + s);
            }
        }
        i = i + 1;
    }
    assert(arr@ + Seq::<i64>::empty() =~= arr@);
    Ok(arr)
}

fn parse_uint_elems(input: &[u8], pos: &mut usize, len: u32) -> (r: Result<Vec<u64>, Error>)
    requires
        *old(pos) <= input@.len(),
    ensures
        *old(pos) <= *final(pos) <= input@.len(),
        match r {
            Ok(v) => dec_uint_elems(input@.skip(*old(pos) as int), len as nat) == Ok::<
                (Seq<u64>, nat),
                Error,
            >((v@, (*final(pos) - *old(pos)) as nat)),
            Err(e) => dec_uint_elems(input@.skip(*old(pos) as int), len as nat) == Err::<
                (Seq<u64>, nat),
                Error,
            >(e),
        },
    decreases input@.len() - *pos, 1int,
{
    let ghost start = *pos;
    let mut arr: Vec<u64> = Vec::new();
    let mut i: u32 = 0;
    while i < len
        invariant
            start == *old(pos),
            start <= *pos <= input@.len(),
            i <= len,
            dec_uint_elems(input@.skip(start as int), len as nat) == (match dec_uint_elems(
                input@.skip(*pos as int),
                (len - i) as nat,
            ) {
                Ok((s, n)) => Ok::<(Seq<u64>, nat), Error>((arr@ + s, ((*pos - start) + n) as nat)),
                Err(e) => Err::<(Seq<u64>, nat), Error>(e),
            }),
        decreases len - i,
    {
        let ghost p0 = *pos;
        let ghost arr0 = arr@;
        let u = match read_unsigned(input, pos) {
            Ok(u) => u,
            Err(e) => {
                return Err(e);
            },
        };
        arr.push(u);
        proof {
            assert(crate::wire::advance(input@.skip(p0 as int), (*pos - p0) as nat)
                =~= input@.skip(*pos as int));
            assert(arr@ =~= arr0 + seq![u]);
            let r_rest = dec_uint_elems(input@.skip(*pos as int), (len - i - 1) as nat);
            if r_rest is Ok {
                let (s, n) = r_rest->Ok_0;
                assert(arr0 + (seq![u] + s) =~= (arr0 + seq![u]) + s);
            }
        }
        i = i + 1;
    }
    assert(arr@ + Seq::<u64>::empty() =~= arr@);
    Ok(arr)
}

fn parse_str_elems(input: &[u8], pos: &mut usize, len: u32) -> (r: Result<Vec<String>, Error>)
    requires
        *old(pos) <= input@.len(),
    ensures
        *old(pos) <= *final(pos) <= input@.len(),
        match r {
            Ok(v) => dec_str_elems(input@.skip(*old(pos) as int), len as nat) == Ok::<
                (Seq<Seq<char>>, nat),
                Error,
            >((v@.map_values(|x: String| x@), (*final(pos) - *old(pos)) as nat)),
            Err(e) => dec_str_elems(input@.skip(*old(pos) as int), len as nat) == Err::<
                (Seq<Seq<char>>, nat),
                Error,
            >(e),
        },
    decreases input@.len() - *pos, 1int,
{
    let ghost start = *pos;
    let mut arr: Vec<String> = Vec::new();
    let mut i: u32 = 0;
    while i < len
        invariant
            start == *old(pos),
            start <= *pos <= input@.len(),
            i <= len,
            dec_str_elems(input@.skip(start as int), len as nat) == (match dec_str_elems(
                input@.skip(*pos as int),
                (len - i) as nat,
            ) {
                Ok((s, n)) => Ok::<(Seq<Seq<char>>, nat), Error>(
                    (arr@.map_values(|x: String| x@) + s, ((*pos - start) + n) as nat),
                ),
                Err(e) => Err::<(Seq<Seq<char>>, nat), Error>(e),
            }),
        decreases len - i,
    {
        let ghost p0 = *pos;
        let ghost arr0 = arr@;
        let st = match parse_string(input, pos) {
            Ok(st) => st,
            Err(e) => {
                return Err(e);
            },
        };
        let ghost stv = st@;
        arr.push(st);
        proof {
            assert(crate::wire::advance(input@.skip(p0 as int), (*pos - p0) as nat)
                =~= input@.skip(*pos as int));
            assert(arr@.map_values(|x: String| x@) =~= arr0.map_values(|x: String| x@)
                + seq![stv]);
            let r_rest = dec_str_elems(input@.skip(*pos as int), (len - i - 1) as nat);
            if r_rest is Ok {
                let (s, n) = r_rest->Ok_0;
                assert(arr0.map_values(|x: String| x@) + (seq![stv] + s) =~= (arr0.map_values(
                    |x: String| x@,
                ) + seq![stv]) + s);
            }
        }
        i = i + 1;
    }
    assert(arr@.map_values(|x: String| x@) + Seq::<Seq<char>>::empty() =~= arr@.map_values(
        |x: String| x@,
    ));
    Ok(arr)
}

fn parse_bytes_elems(input: &[u8], pos: &mut usize, len: u32) -> (r: Result<Vec<Vec<u8>>, Error>)
    requires
        *old(pos) <= input@.len(),
    ensures
        *old(pos) <= *final(pos) <= input@.len(),
        match r {
            Ok(v) => dec_bytes_elems(input@.skip(*old(pos) as int), len as nat) == Ok::<
                (Seq<Seq<u8>>, nat),
                Error,
            >((v@.map_values(|x: Vec<u8>| x@), (*final(pos) - *old(pos)) as nat)),
            Err(e) => dec_bytes_elems(input@.skip(*old(pos) as int), len as nat) == Err::<
                (Seq<Seq<u8>>, nat),
                Error,
            >(e),
        },
    decreases input@.len() - *pos, 1int,
{
    let ghost start = *pos;
    let mut arr: Vec<Vec<u8>> = Vec::new();
    let mut i: u32 = 0;
    while i < len
        invariant
            start == *old(pos),
            start <= *pos <= input@.len(),
            i <= len,
            dec_bytes_elems(input@.skip(start as int), len as nat) == (match dec_bytes_elems(
                input@.skip(*pos as int),
                (len - i) as nat,
            ) {
                Ok((s, n)) => Ok::<(Seq<Seq<u8>>, nat), Error>(
                    (arr@.map_values(|x: Vec<u8>| x@) + s, ((*pos - start) + n) as nat),
                ),
                Err(e) => Err::<(Seq<Seq<u8>>, nat), Error>(e),
            }),
        decreases len - i,
    {
        let ghost p0 = *pos;
        let ghost arr0 = arr@;
        let b = match parse_bytes(input, pos) {
            Ok(b) => b,
            Err(e) => {
                return Err(e);
            },
        };
        let ghost bv = b@;
        arr.push(b);
        proof {
            assert(crate::wire::advance(input@.skip(p0 as int), (*pos - p0) as nat)
                =~= input@.skip(*pos as int));
            assert(arr@.map_values(|x: Vec<u8>| x@) =~= arr0.map_values(|x: Vec<u8>| x@)
                + seq![bv]);
            let r_rest = dec_bytes_elems(input@.skip(*pos as int), (len - i - 1) as nat);
            if r_rest is Ok {
                let (s, n) = r_rest->Ok_0;
                assert(arr0.map_values(|x: Vec<u8>| x@) + (seq![bv] + s) =~= (arr0.map_values(
                    |x: Vec<u8>| x@,
                ) + seq![bv]) + s);
            }
        }
        i = i + 1;
    }
    assert(arr@.map_values(|x: Vec<u8>| x@) + Seq::<Seq<u8>>::empty() =~= arr@.map_values(
        |x: Vec<u8>| x@,
    ));
    Ok(arr)
}

fn parse_list_elems(input: &[u8], pos: &mut usize, len: u32) -> (r: Result<Vec<List>, Error>)
    requires
        *old(pos) <= input@.len(),
    ensures
        *old(pos) <= *final(pos) <= input@.len(),
        match r {
            Ok(v) => dec_list_elems(input@.skip(*old(pos) as int), len as nat) == Ok::<
                (Seq<ListV>, nat),
                Error,
            >((view_lists(v@), (*final(pos) - *old(pos)) as nat)),
            Err(e) => dec_list_elems(input@.skip(*old(pos) as int), len as nat) == Err::<
                (Seq<ListV>, nat),
                Error,
            >(e),
        },
    decreases input@.len() - *pos, 1int,
{
    let ghost start = *pos;
    let mut arr: Vec<List> = Vec::new();
    let mut i: u32 = 0;
    while i < len
        invariant
            start == *old(pos),
            start <= *pos <= input@.len(),
            i <= len,
            dec_list_elems(input@.skip(start as int), len as nat) == (match dec_list_elems(
                input@.skip(*pos as int),
                (len - i) as nat,
            ) {
                Ok((s, n)) => Ok::<(Seq<ListV>, nat), Error>(
                    (view_lists(arr@) + s, ((*pos - start) + n) as nat),
                ),
                Err(e) => Err::<(Seq<ListV>, nat), Error>(e),
            }),
        decreases len - i,
    {
        let ghost p0 = *pos;
        let ghost arr0 = arr@;
        let l = match parse_list(input, pos) {
            Ok(l) => l,
            Err(e) => {
                return Err(e);
            },
        };
        let ghost lv = view_list(l);
        arr.push(l);
        proof {
            assert(crate::wire::advance(input@.skip(p0 as int), (*pos - p0) as nat)
                =~= input@.skip(*pos as int));
            lemma_view_lists_push(arr0, arr@[arr@.len() - 1]);
            assert(view_lists(arr@) =~= view_lists(arr0) + seq![lv]);
            let r_rest = dec_list_elems(input@.skip(*pos as int), (len - i - 1) as nat);
            if r_rest is Ok {
                let (s, n) = r_rest->Ok_0;
                assert(view_lists(arr0) + (seq![lv] + s) =~= (view_lists(arr0) + seq![lv]) + s);
            }
        }
        i = i + 1;
    }
    assert(view_lists(arr@) + Seq::<ListV>::empty() =~= view_lists(arr@));
    Ok(arr)
}

fn parse_struct_elems(input: &[u8], pos: &mut usize, len: u32) -> (r: Result<
    Vec<Vec<(u32, Value)>>,
    Error,
>)
    requires
        *old(pos) <= input@.len(),
    ensures
        *old(pos) <= *final(pos) <= input@.len(),
        match r {
            Ok(v) => dec_struct_elems(input@.skip(*old(pos) as int), len as nat) == Ok::<
                (Seq<Seq<(u32, ValueV)>>, nat),
                Error,
            >((view_structs(v@), (*final(pos) - *old(pos)) as nat)),
            Err(e) => dec_struct_elems(input@.skip(*old(pos) as int), len as nat) == Err::<
                (Seq<Seq<(u32, ValueV)>>, nat),
                Error,
            >(e),
        },
    decreases input@.len() - *pos, 1int,
{
    let ghost start = *pos;
    let mut arr: Vec<Vec<(u32, Value)>> = Vec::new();
    let mut i: u32 = 0;
    while i < len
        invariant
            start == *old(pos),
            start <= *pos <= input@.len(),
            i <= len,
            dec_struct_elems(input@.skip(start as int), len as nat) == (match dec_struct_elems(
                input@.skip(*pos as int),
                (len - i) as nat,
            ) {
                Ok((s, n)) => Ok::<(Seq<Seq<(u32, ValueV)>>, nat), Error>(
                    (view_structs(arr@) + s, ((*pos - start) + n) as nat),
                ),
                Err(e) => Err::<(Seq<Seq<(u32, ValueV)>>, nat), Error>(e),
            }),
        decreases len - i,
    {
        let ghost p0 = *pos;
        let ghost arr0 = arr@;
        let fs = match parse_struct(input, pos) {
            Ok(fs) => fs,
            Err(e) => {
                return Err(e);
            },
        };
        let ghost fv = view_fields(fs@);
        arr.push(fs);
        proof {
            assert(crate::wire::advance(input@.skip(p0 as int), (*pos - p0) as nat)
                =~= input@.skip(*pos as int));
            lemma_view_structs_push(arr0, arr@[arr@.len() - 1]);
            assert(view_structs(arr@) =~= view_structs(arr0) + seq![fv]);
            let r_rest = dec_struct_elems(input@.skip(*pos as int), (len - i - 1) as nat);
            if r_rest is Ok {
                let (s, n) = r_rest->Ok_0;
                assert(view_structs(arr0) + (seq![fv] + s) =~= (view_structs(arr0) + seq![fv]) + s);
            }
        }
        i = i + 1;
    }
    assert(view_structs(arr@) + Seq::<Seq<(u32, ValueV)>>::empty() =~= view_structs(arr@));
    Ok(arr)
}

/// Reads a whole list: its inline header, then its elements.
pub fn parse_list(input: &[u8], pos: &mut usize) -> (r: Result<List, Error>)
    requires
        *old(pos) <= input@.len(),
    ensures
        *old(pos) <= *final(pos) <= input@.len(),
        match r {
            Ok(l) => dec_list(input@.skip(*old(pos) as int)) == Ok::<(ListV, nat), Error>(
                (l@, (*final(pos) - *old(pos)) as nat),
            ),
            Err(e) => dec_list(input@.skip(*old(pos) as int)) == Err::<(ListV, nat), Error>(e),
        },
    decreases input@.len() - *pos, 0int,
{
    let ghost start = *pos;
    let (len, ty) = match decode_field_ty(input, pos) {
        Ok(p) => p,
        Err(e) => {
            return Err(e);
        },
    };
    let ghost mid = *pos;
    proof {
        assert(crate::wire::advance(input@.skip(start as int), (mid - start) as nat)
            =~= input@.skip(mid as int));
    }
    if ty <= 1 {
        match parse_bool_elems(input, pos, len) {
            Ok(v) => Ok(List::Bool(v)),
            Err(e) => Err(e),
        }
    } else if ty == 2 {
        match parse_f32_elems(input, pos, len) {
            Ok(v) => Ok(List::F32(v)),
            Err(e) => Err(e),
        }
    } else if ty == 3 {
        match parse_f64_elems(input, pos, len) {
            Ok(v) => Ok(List::F64(v)),
            Err(e) => Err(e),
        }
    } else if ty == 4 {
        match parse_int_elems(input, pos, len) {
            Ok(v) => Ok(List::Int(v)),
            Err(e) => Err(e),
        }
    } else if ty == 5 {
        match parse_uint_elems(input, pos, len) {
            Ok(v) => Ok(List::UInt(v)),
            Err(e) => Err(e),
        }
    } else if ty == 6 {
        match parse_str_elems(input, pos, len) {
            Ok(v) => Ok(List::Str(v)),
            Err(e) => Err(e),
        }
    } else if ty == 7 {
        match parse_bytes_elems(input, pos, len) {
            Ok(v) => Ok(List::Bytes(v)),
            Err(e) => Err(e),
        }
    } else if ty == 8 {
        match parse_list_elems(input, pos, len) {
            Ok(v) => Ok(List::List(v)),
            Err(e) => Err(e),
        }
    } else if ty == 9 {
        match parse_struct_elems(input, pos, len) {
            Ok(v) => Ok(List::Struct(v)),
            Err(e) => Err(e),
        }
    } else {
        Err(crate::errors::unknown_opcode(ty))
    }
}

/// Reads a whole record: headers in a loop, each followed by its
/// payload, until the terminator tag closes the record. The cursor ends
/// just past the terminator byte, so records nest and concatenate
/// without an outer length prefix.
#[verifier::rlimit(100)]
pub fn parse_struct(input: &[u8], pos: &mut usize) -> (r: Result<Vec<(u32, Value)>, Error>)
    requires
        *old(pos) <= input@.len(),
    ensures
        *old(pos) <= *final(pos) <= input@.len(),
        match r {
            Ok(fields) => dec_struct(input@.skip(*old(pos) as int)) == Ok::<
                (Seq<(u32, ValueV)>, nat),
                Error,
            >((view_fields(fields@), (*final(pos) - *old(pos)) as nat)),
            Err(e) => dec_struct(input@.skip(*old(pos) as int)) == Err::<
                (Seq<(u32, ValueV)>, nat),
                Error,
            >(e),
        },
    decreases input@.len() - *pos, 0int,
{
    let ghost start = *pos;
    let mut obj: Vec<(u32, Value)> = Vec::new();
    loop
        invariant
            start == *old(pos),
            start <= *pos <= input@.len(),
            dec_struct(input@.skip(start as int)) == (match dec_struct(input@.skip(*pos as int)) {
                Ok((fs, n)) => Ok::<(Seq<(u32, ValueV)>, nat), Error>(
                    (view_fields(obj@) + fs, ((*pos - start) + n) as nat),
                ),
                Err(e) => Err::<(Seq<(u32, ValueV)>, nat), Error>(e),
            }),
        decreases input@.len() - *pos,
    {
        let ghost p0 = *pos;
        let ghost obj0 = obj@;
        let (id, ty) = match decode_field_ty(input, pos) {
            Ok(x) => x,
            Err(e) => {
                return Err(e);
            },
        };
        let ghost mid = *pos;
        proof {
            assert(crate::wire::advance(input@.skip(p0 as int), (mid - p0) as nat)
                =~= input@.skip(mid as int));
        }
        if ty == 10 {
            proof {
                assert(view_fields(obj@) + Seq::<(u32, ValueV)>::empty() =~= view_fields(obj@));
            }
            return Ok(obj);
        }
        let val: Value = if ty == 0 {
            Value::Bool(false)
        } else if ty == 1 {
            Value::Bool(true)
        } else if ty == 2 {
            match read_le32(input, pos) {
                Ok(v) => Value::F32(v),
                Err(e) => {
                    proof {
                        assert(crate::wire::dec_payload(input@.skip(mid as int), ty)
                            == Err::<(ValueV, nat), Error>(e));
                        assert(dec_struct(input@.skip(p0 as int)) == Err::<
                            (Seq<(u32, ValueV)>, nat),
                            Error,
                        >(e));
                    }
                    return Err(e);
                },
            }
        } else if ty == 3 {
            match read_le64(input, pos) {
                Ok(v) => Value::F64(v),
                Err(e) => {
                    proof {
                        assert(crate::wire::dec_payload(input@.skip(mid as int), ty)
                            == Err::<(ValueV, nat), Error>(e));
                        assert(dec_struct(input@.skip(p0 as int)) == Err::<
                            (Seq<(u32, ValueV)>, nat),
                            Error,
                        >(e));
                    }
                    return Err(e);
                },
            }
        } else if ty == 4 {
            match read_unsigned(input, pos) {
                Ok(u) => Value::Int(crate::zig_zag::from(u)),
                Err(e) => {
                    proof {
                        assert(crate::wire::dec_payload(input@.skip(mid as int), ty)
                            == Err::<(ValueV, nat), Error>(e));
                        assert(dec_struct(input@.skip(p0 as int)) == Err::<
                            (Seq<(u32, ValueV)>, nat),
                            Error,
                        >(e));
                    }
                    return Err(e);
                },
            }
        } else if ty == 5 {
            match read_unsigned(input, pos) {
                Ok(u) => Value::UInt(u),
                Err(e) => {
                    proof {
                        assert(crate::wire::dec_payload(input@.skip(mid as int), ty)
                            == Err::<(ValueV, nat), Error>(e));
                        assert(dec_struct(input@.skip(p0 as int)) == Err::<
                            (Seq<(u32, ValueV)>, nat),
                            Error,
                        >(e));
                    }
                    return Err(e);
                },
            }
        } else if ty == 6 {
            match parse_string(input, pos) {
                Ok(st) => Value::Str(st),
                Err(e) => {
                    proof {
                        assert(crate::wire::dec_payload(input@.skip(mid as int), ty)
                            == Err::<(ValueV, nat), Error>(e));
                        assert(dec_struct(input@.skip(p0 as int)) == Err::<
                            (Seq<(u32, ValueV)>, nat),
                            Error,
                        >(e));
                    }
                    return Err(e);
                },
            }
        } else if ty == 7 {
            match parse_bytes(input, pos) {
                Ok(b) => Value::Bytes(b),
                Err(e) => {
                    proof {
                        assert(crate::wire::dec_payload(input@.skip(mid as int), ty)
                            == Err::<(ValueV, nat), Error>(e));
                        assert(dec_struct(input@.skip(p0 as int)) == Err::<
                            (Seq<(u32, ValueV)>, nat),
                            Error,
                        >(e));
                    }
                    return Err(e);
                },
            }
        } else if ty == 8 {
            match parse_list(input, pos) {
                Ok(l) => Value::List(l),
                Err(e) => {
                    proof {
                        assert(crate::wire::dec_payload(input@.skip(mid as int), ty)
                            == Err::<(ValueV, nat), Error>(e));
                        assert(dec_struct(input@.skip(p0 as int)) == Err::<
                            (Seq<(u32, ValueV)>, nat),
                            Error,
                        >(e));
                    }
                    return Err(e);
                },
            }
        } else if ty == 9 {
            match parse_struct(input, pos) {
                Ok(fs) => Value::Struct(crate::entries::Entries(fs)),
                Err(e) => {
                    proof {
                        assert(crate::wire::dec_payload(input@.skip(mid as int), ty)
                            == Err::<(ValueV, nat), Error>(e));
                        assert(dec_struct(input@.skip(p0 as int)) == Err::<
                            (Seq<(u32, ValueV)>, nat),
                            Error,
                        >(e));
                    }
                    return Err(e);
                },
            }
        } else {
            proof {
                assert(crate::wire::dec_payload(input@.skip(mid as int), ty) == Err::<
                    (ValueV, nat),
                    Error,
                >(Error::UnknownOpcode(ty)));
                assert(dec_struct(input@.skip(p0 as int)) == Err::<
                    (Seq<(u32, ValueV)>, nat),
                    Error,
                >(Error::UnknownOpcode(ty)));
            }
            return Err(crate::errors::unknown_opcode(ty));
        };
        let ghost vv = view_value(val);
        obj.push((id, val));
        proof {
            assert(crate::wire::advance(input@.skip(p0 as int), ((mid - p0) + (*pos - mid)) as nat)
                =~= input@.skip(*pos as int));
            lemma_view_fields_push(obj0, obj@[obj@.len() - 1]);
            assert(view_fields(obj@) =~= view_fields(obj0) + seq![(id, vv)]);
            let r_rest = dec_struct(input@.skip(*pos as int));
            if r_rest is Ok {
                let (fs, n) = r_rest->Ok_0;
                assert(view_fields(obj0) + (seq![(id, vv)] + fs) =~= (view_fields(obj0) + seq![
                    (id, vv),
                ]) + fs);
            }
        }
    }
}

} // verus!
