//! The encoder protocol: native values in, wire bytes out.
//!
//! [`FieldEncoder`] writes one named field (header, then payload);
//! [`crate::Encoder`] writes a whole record and is the hook for record
//! types. Every writer's contract states the exact bytes it appends, in
//! terms of the wire-format specification, so the round-trip theorems
//! apply to everything written here.

use vstd::prelude::*;
use vstd::slice::slice_index_get;
use vstd::string::StringSliceAdditionalSpecFns;

use crate::decoder::{view_fields, view_list, view_value, List, Value};
use crate::leb128::{spec_varint, write_unsigned};
use crate::wire::{
    enc_bool_elems, enc_bytes_elems, enc_f32_elems, enc_f64_elems, enc_field, enc_fields,
    enc_int_elems, enc_len_prefixed, enc_list, enc_list_elems, enc_str, enc_str_elems, enc_struct,
    enc_struct_elems, enc_uint_elems, spec_bool_byte, spec_header, spec_le32, spec_le64,
    terminator, wf_fields, wf_list, wf_value, ListV, ValueV,
};
use crate::zig_zag::spec_zigzag;

verus! {

/// A 32-bit floating payload, carried by its little-endian bit pattern.
#[derive(Clone, Copy, Debug, PartialEq, Eq, Structural)]
pub struct F32Bits(pub u32);

/// A 64-bit floating payload, carried by its little-endian bit pattern.
#[derive(Clone, Copy, Debug, PartialEq, Eq, Structural)]
pub struct F64Bits(pub u64);

/// Appends every byte of a borrowed slice.
fn push_bytes(w: &mut Vec<u8>, bytes: &[u8])
    ensures
        final(w)@ == old(w)@ + bytes@,
{
    let mut i: usize = 0;
    while i < bytes.len()
        invariant
            i <= bytes@.len(),
            w@ == old(w)@ + bytes@.take(i as int),
        decreases bytes@.len() - i,
    {
        let b = *slice_index_get(bytes, i);
        w.push(b);
        proof {
            assert(old(w)@ + bytes@.take(i + 1) =~= (old(w)@ + bytes@.take(i as int)).push(b));
        }
        i = i + 1;
    }
    assert(w@ =~= old(w)@ + bytes@);
}

/// Writes a field header: the id in the high nibble where it fits,
/// otherwise the escape nibble and the varint of `id - 15`.
pub fn encode_field_ty(w: &mut Vec<u8>, id: u32, ty: u8)
    requires
        ty < 16,
    ensures
        final(w)@ == old(w)@ + spec_header(id, ty),
{
    if id < 15 {
        w.push((id as u8) * 16 + ty);
        assert(w@ =~= old(w)@ + spec_header(id, ty));
    } else {
        w.push(240 + ty);
        write_unsigned(w, (id - 15) as u64);
        assert(w@ =~= old(w)@ + spec_header(id, ty));
    }
}

/// Writes a payload length as a varint; lengths beyond `u32::MAX` do
/// not fit the format.
pub fn encode_len_u32(w: &mut Vec<u8>, len: usize)
    requires
        len <= u32::MAX,
    ensures
        final(w)@ == old(w)@ + spec_varint(len as u64),
{
    write_unsigned(w, len as u64);
}

/// Writes a signed field: header with tag 4, then the zigzag varint.
pub fn encode_sign(w: &mut Vec<u8>, id: u32, num: i64)
    ensures
        final(w)@ == old(w)@ + spec_header(id, 4) + spec_varint(spec_zigzag(num)),
{
    encode_field_ty(w, id, 4);
    write_unsigned(w, crate::zig_zag::into(num));
    assert(w@ =~= old(w)@ + spec_header(id, 4) + spec_varint(spec_zigzag(num)));
}

/// Writes an unsigned field: header with tag 5, then the varint.
pub fn encode_unsign(w: &mut Vec<u8>, id: u32, num: u64)
    ensures
        final(w)@ == old(w)@ + spec_header(id, 5) + spec_varint(num),
{
    encode_field_ty(w, id, 5);
    write_unsigned(w, num);
    assert(w@ =~= old(w)@ + spec_header(id, 5) + spec_varint(num));
}

/// Writes the four little-endian bytes of a 32-bit value.
fn push_le32(w: &mut Vec<u8>, bits: u32)
    ensures
        final(w)@ == old(w)@ + spec_le32(bits),
{
    w.push((bits % 256) as u8);
    w.push(((bits / 256) % 256) as u8);
    w.push(((bits / 0x10000) % 256) as u8);
    w.push(((bits / 0x1000000) % 256) as u8);
    assert(w@ =~= old(w)@ + spec_le32(bits));
}

/// Writes the eight little-endian bytes of a 64-bit value.
fn push_le64(w: &mut Vec<u8>, bits: u64)
    ensures
        final(w)@ == old(w)@ + spec_le64(bits),
{
    w.push((bits % 256) as u8);
    w.push(((bits / 256) % 256) as u8);
    w.push(((bits / 0x10000) % 256) as u8);
    w.push(((bits / 0x1000000) % 256) as u8);
    w.push(((bits / 0x100000000) % 256) as u8);
    w.push(((bits / 0x10000000000) % 256) as u8);
    w.push(((bits / 0x1000000000000) % 256) as u8);
    w.push(((bits / 0x100000000000000) % 256) as u8);
    assert(w@ =~= old(w)@ + spec_le64(bits));
}

/// Writes a length-prefixed raw byte payload, without a field header.
fn push_len_prefixed(w: &mut Vec<u8>, bytes: &[u8])
    requires
        bytes@.len() <= u32::MAX,
    ensures
        final(w)@ == old(w)@ + enc_len_prefixed(bytes@),
{
    encode_len_u32(w, bytes.len());
    push_bytes(w, bytes);
    assert(w@ =~= old(w)@ + enc_len_prefixed(bytes@));
}

/// Writes one named field of a record: its header, then its payload.
/// The contract pins the exact bytes each implementation appends;
/// everything but an absent optional writes the wire encoding of its
/// abstract model under the given id.
pub trait FieldEncoder {
    /// True when the value fits the wire limits (string, byte and list
    /// lengths at most `u32::MAX`).
    spec fn encodable(&self) -> bool;

    /// The exact bytes one call of `encode` appends.
    spec fn field_bytes(&self, id: u32) -> Seq<u8>;

    fn encode(&self, w: &mut Vec<u8>, id: u32)
        requires
            self.encodable(),
        ensures
            final(w)@ == old(w)@ + self.field_bytes(id),
    ;
}


impl FieldEncoder for bool {
    open spec fn encodable(&self) -> bool {
        true
    }

    open spec fn field_bytes(&self, id: u32) -> Seq<u8> {
        enc_field(id, ValueV::Bool(*self))
    }

    fn encode(&self, w: &mut Vec<u8>, id: u32) {
        encode_field_ty(w, id, if *self { 1 } else { 0 });
        assert(w@ =~= old(w)@ + self.field_bytes(id));
    }
}


impl FieldEncoder for u8 {
    open spec fn encodable(&self) -> bool {
        true
    }

    open spec fn field_bytes(&self, id: u32) -> Seq<u8> {
        enc_field(id, ValueV::UInt(*self as u64))
    }

    fn encode(&self, w: &mut Vec<u8>, id: u32) {
        encode_unsign(w, id, *self as u64);
        assert(w@ =~= old(w)@ + self.field_bytes(id));
    }
}


impl FieldEncoder for u16 {
    open spec fn encodable(&self) -> bool {
        true
    }

    open spec fn field_bytes(&self, id: u32) -> Seq<u8> {
        enc_field(id, ValueV::UInt(*self as u64))
    }

    fn encode(&self, w: &mut Vec<u8>, id: u32) {
        encode_unsign(w, id, *self as u64);
        assert(w@ =~= old(w)@ + self.field_bytes(id));
    }
}


impl FieldEncoder for u32 {
    open spec fn encodable(&self) -> bool {
        true
    }

    open spec fn field_bytes(&self, id: u32) -> Seq<u8> {
        enc_field(id, ValueV::UInt(*self as u64))
    }

    fn encode(&self, w: &mut Vec<u8>, id: u32) {
        encode_unsign(w, id, *self as u64);
        assert(w@ =~= old(w)@ + self.field_bytes(id));
    }
}


impl FieldEncoder for u64 {
    open spec fn encodable(&self) -> bool {
        true
    }

    open spec fn field_bytes(&self, id: u32) -> Seq<u8> {
        enc_field(id, ValueV::UInt(*self))
    }

    fn encode(&self, w: &mut Vec<u8>, id: u32) {
        encode_unsign(w, id, *self);
        assert(w@ =~= old(w)@ + self.field_bytes(id));
    }
}


impl FieldEncoder for i8 {
    open spec fn encodable(&self) -> bool {
        true
    }

    open spec fn field_bytes(&self, id: u32) -> Seq<u8> {
        enc_field(id, ValueV::Int(*self as i64))
    }

    fn encode(&self, w: &mut Vec<u8>, id: u32) {
        encode_sign(w, id, *self as i64);
        assert(w@ =~= old(w)@ + self.field_bytes(id));
    }
}


impl FieldEncoder for i16 {
    open spec fn encodable(&self) -> bool {
        true
    }

    open spec fn field_bytes(&self, id: u32) -> Seq<u8> {
        enc_field(id, ValueV::Int(*self as i64))
    }

    fn encode(&self, w: &mut Vec<u8>, id: u32) {
        encode_sign(w, id, *self as i64);
        assert(w@ =~= old(w)@ + self.field_bytes(id));
    }
}


impl FieldEncoder for i32 {
    open spec fn encodable(&self) -> bool {
        true
    }

    open spec fn field_bytes(&self, id: u32) -> Seq<u8> {
        enc_field(id, ValueV::Int(*self as i64))
    }

    fn encode(&self, w: &mut Vec<u8>, id: u32) {
        encode_sign(w, id, *self as i64);
        assert(w@ =~= old(w)@ + self.field_bytes(id));
    }
}


impl FieldEncoder for i64 {
    open spec fn encodable(&self) -> bool {
        true
    }

    open spec fn field_bytes(&self, id: u32) -> Seq<u8> {
        enc_field(id, ValueV::Int(*self))
    }

    fn encode(&self, w: &mut Vec<u8>, id: u32) {
        encode_sign(w, id, *self);
        assert(w@ =~= old(w)@ + self.field_bytes(id));
    }
}


impl FieldEncoder for F32Bits {
    open spec fn encodable(&self) -> bool {
        true
    }

    open spec fn field_bytes(&self, id: u32) -> Seq<u8> {
        enc_field(id, ValueV::F32(self.0))
    }

    fn encode(&self, w: &mut Vec<u8>, id: u32) {
        encode_field_ty(w, id, 2);
        push_le32(w, self.0);
        assert(w@ =~= old(w)@ + self.field_bytes(id));
    }
}


impl FieldEncoder for F64Bits {
    open spec fn encodable(&self) -> bool {
        true
    }

    open spec fn field_bytes(&self, id: u32) -> Seq<u8> {
        enc_field(id, ValueV::F64(self.0))
    }

    fn encode(&self, w: &mut Vec<u8>, id: u32) {
        encode_field_ty(w, id, 3);
        push_le64(w, self.0);
        assert(w@ =~= old(w)@ + self.field_bytes(id));
    }
}


impl FieldEncoder for String {
    open spec fn encodable(&self) -> bool {
        vstd::utf8::encode_utf8(self@).len() <= u32::MAX
    }

    open spec fn field_bytes(&self, id: u32) -> Seq<u8> {
        enc_field(id, ValueV::Str(self@))
    }

    fn encode(&self, w: &mut Vec<u8>, id: u32) {
        encode_field_ty(w, id, 6);
        push_len_prefixed(w, self.as_str().as_bytes());
        assert(w@ =~= old(w)@ + self.field_bytes(id));
    }
}


impl FieldEncoder for Vec<u8> {
    open spec fn encodable(&self) -> bool {
        self@.len() <= u32::MAX
    }

    open spec fn field_bytes(&self, id: u32) -> Seq<u8> {
        enc_field(id, ValueV::Bytes(self@))
    }

    fn encode(&self, w: &mut Vec<u8>, id: u32) {
        encode_field_ty(w, id, 7);
        push_len_prefixed(w, self.as_slice());
        assert(w@ =~= old(w)@ + self.field_bytes(id));
    }
}


impl<T: FieldEncoder> FieldEncoder for Option<T> {
    open spec fn encodable(&self) -> bool {
        match self {
            Some(v) => v.encodable(),
            None => true,
        }
    }

    /// An absent optional field writes nothing at all: absence on the
    /// wire is how optionality round-trips.
    open spec fn field_bytes(&self, id: u32) -> Seq<u8> {
        match self {
            Some(v) => v.field_bytes(id),
            None => Seq::empty(),
        }
    }

    fn encode(&self, w: &mut Vec<u8>, id: u32) {
        match self {
            Some(v) => v.encode(w, id),
            None => {
                assert(w@ =~= w@ + Seq::<u8>::empty());
            },
        }
    }
}


impl FieldEncoder for List {
    open spec fn encodable(&self) -> bool {
        wf_list(view_list(*self))
    }

    open spec fn field_bytes(&self, id: u32) -> Seq<u8> {
        enc_field(id, ValueV::List(view_list(*self)))
    }

    fn encode(&self, w: &mut Vec<u8>, id: u32) {
        encode_field_ty(w, id, 8);
        encode_list(self, w);
        assert(w@ =~= old(w)@ + self.field_bytes(id));
    }
}


impl FieldEncoder for Value {
    open spec fn encodable(&self) -> bool {
        wf_value(view_value(*self))
    }

    open spec fn field_bytes(&self, id: u32) -> Seq<u8> {
        enc_field(id, view_value(*self))
    }

    fn encode(&self, w: &mut Vec<u8>, id: u32) {
        encode_value(self, w, id);
    }
}

/// Writes a field whose value is itself a record: a header with tag 9,
/// then the record's own encoding, terminator included.
pub fn encode_struct_field<T: crate::Encoder>(value: &T, w: &mut Vec<u8>, id: u32)
    requires
        value.encodable(),
    ensures
        final(w)@ == old(w)@ + spec_header(id, 9) + value.record_bytes(),
{
    encode_field_ty(w, id, 9);
    value.encode(w);
    assert(w@ =~= old(w)@ + spec_header(id, 9) + value.record_bytes());
}

/// Writes one field of the untyped value tree: header, then payload,
/// recursing through lists and nested records.
pub fn encode_value(v: &Value, w: &mut Vec<u8>, id: u32)
    requires
        wf_value(view_value(*v)),
    ensures
        final(w)@ == old(w)@ + enc_field(id, view_value(*v)),
    decreases *v,
{
    match v {
        Value::Bool(b) => {
            encode_field_ty(w, id, if *b { 1 } else { 0 });
            assert(w@ =~= old(w)@ + enc_field(id, view_value(*v)));
        },
        Value::F32(bits) => {
            encode_field_ty(w, id, 2);
            push_le32(w, *bits);
            assert(w@ =~= old(w)@ + enc_field(id, view_value(*v)));
        },
        Value::F64(bits) => {
            encode_field_ty(w, id, 3);
            push_le64(w, *bits);
            assert(w@ =~= old(w)@ + enc_field(id, view_value(*v)));
        },
        Value::Int(n) => {
            encode_sign(w, id, *n);
            assert(w@ =~= old(w)@ + enc_field(id, view_value(*v)));
        },
        Value::UInt(n) => {
            encode_unsign(w, id, *n);
            assert(w@ =~= old(w)@ + enc_field(id, view_value(*v)));
        },
        Value::Str(s) => {
            encode_field_ty(w, id, 6);
            push_len_prefixed(w, s.as_str().as_bytes());
            assert(w@ =~= old(w)@ + enc_field(id, view_value(*v)));
        },
        Value::Bytes(b) => {
            encode_field_ty(w, id, 7);
            push_len_prefixed(w, b.as_slice());
            assert(w@ =~= old(w)@ + enc_field(id, view_value(*v)));
        },
        Value::List(l) => {
            encode_field_ty(w, id, 8);
            encode_list(l, w);
            assert(w@ =~= old(w)@ + enc_field(id, view_value(*v)));
        },
        Value::Struct(e) => {
            encode_field_ty(w, id, 9);
            encode_fields(&e.0, w);
            w.push(10);
            assert(w@ =~= old(w)@ + enc_field(id, view_value(*v)));
        },
    }
}

/// Writes a run of fields, in order, without a terminator.
pub fn encode_fields(fs: &Vec<(u32, Value)>, w: &mut Vec<u8>)
    requires
        wf_fields(view_fields(fs@)),
    ensures
        final(w)@ == old(w)@ + enc_fields(view_fields(fs@)),
    decreases *fs,
{
    proof {
        assert(fs@.skip(0) =~= fs@);
    }
    let mut i: usize = 0;
    while i < fs.len()
        invariant
            i <= fs@.len(),
            wf_fields(view_fields(fs@.skip(i as int))),
            old(w)@ + enc_fields(view_fields(fs@)) == w@ + enc_fields(
                view_fields(fs@.skip(i as int)),
            ),
        decreases fs@.len() - i,
    {
        let ghost w1 = w@;
        let ghost tailv = view_fields(fs@.skip(i as int));
        proof {
            assert(fs@.skip(i as int).drop_first() =~= fs@.skip(i + 1));
            assert(tailv[0] == (fs@[i as int].0, view_value(fs@[i as int].1)));
            assert(tailv.drop_first() =~= view_fields(fs@.skip(i + 1)));
            assert(decreases_to!(*fs => fs@[i as int].1));
        }
        let pair = vstd::slice::slice_index_get(fs.as_slice(), i);
        encode_value(&pair.1, w, pair.0);
        proof {
            assert(w@ =~= w1 + enc_field(fs@[i as int].0, view_value(fs@[i as int].1)));
            assert(w1 + enc_fields(tailv) =~= w@ + enc_fields(view_fields(fs@.skip(i + 1))));
        }
        i = i + 1;
    }
    proof {
        assert(fs@.skip(fs@.len() as int) =~= Seq::<(u32, Value)>::empty());
        assert(w@ =~= old(w)@ + enc_fields(view_fields(fs@)));
    }
}

/// Writes a whole record from the untyped tree: every field, then the
/// terminator byte. Decoding these bytes gives the fields back exactly.
pub fn encode_struct(fields: &Vec<(u32, Value)>, w: &mut Vec<u8>)
    requires
        wf_fields(view_fields(fields@)),
    ensures
        final(w)@ == old(w)@ + enc_struct(view_fields(fields@)),
{
    encode_fields(fields, w);
    w.push(10);
    assert(w@ =~= old(w)@ + enc_struct(view_fields(fields@)));
}

/// Writes a whole list: its inline header carrying the element count
/// and element tag, then each element's bare payload in order.
pub fn encode_list(l: &List, w: &mut Vec<u8>)
    requires
        wf_list(view_list(*l)),
    ensures
        final(w)@ == old(w)@ + enc_list(view_list(*l)),
    decreases *l,
{
    match l {
        List::Bool(v) => {
            encode_field_ty(w, v.len() as u32, 1);
            encode_bool_elems_vec(v, w);
            assert(w@ =~= old(w)@ + enc_list(view_list(*l)));
        },
        List::F32(v) => {
            encode_field_ty(w, v.len() as u32, 2);
            encode_f32_elems_vec(v, w);
            assert(w@ =~= old(w)@ + enc_list(view_list(*l)));
        },
        List::F64(v) => {
            encode_field_ty(w, v.len() as u32, 3);
            encode_f64_elems_vec(v, w);
            assert(w@ =~= old(w)@ + enc_list(view_list(*l)));
        },
        List::Int(v) => {
            encode_field_ty(w, v.len() as u32, 4);
            encode_int_elems_vec(v, w);
            assert(w@ =~= old(w)@ + enc_list(view_list(*l)));
        },
        List::UInt(v) => {
            encode_field_ty(w, v.len() as u32, 5);
            encode_uint_elems_vec(v, w);
            assert(w@ =~= old(w)@ + enc_list(view_list(*l)));
        },
        List::Str(v) => {
            encode_field_ty(w, v.len() as u32, 6);
            encode_str_elems_vec(v, w);
            assert(w@ =~= old(w)@ + enc_list(view_list(*l)));
        },
        List::Bytes(v) => {
            encode_field_ty(w, v.len() as u32, 7);
            encode_bytes_elems_vec(v, w);
            assert(w@ =~= old(w)@ + enc_list(view_list(*l)));
        },
        List::List(v) => {
            proof {
                lemma_view_lists_len(v@);
            }
            encode_field_ty(w, v.len() as u32, 8);
            encode_list_elems_vec(v, w);
            assert(w@ =~= old(w)@ + enc_list(view_list(*l)));
        },
        List::Struct(v) => {
            proof {
                lemma_view_structs_len(v@);
            }
            encode_field_ty(w, v.len() as u32, 9);
            encode_struct_elems_vec(v, w);
            assert(w@ =~= old(w)@ + enc_list(view_list(*l)));
        },
    }
}

/// Writes the bare payloads of a run of elements.
fn encode_bool_elems_vec(v: &Vec<bool>, w: &mut Vec<u8>)
    ensures
        final(w)@ == old(w)@ + enc_bool_elems(v@),
{
    let ghost sv = v@;
    proof {
        assert(sv.skip(0) =~= sv);
    }
    let mut i: usize = 0;
    while i < v.len()
        invariant
            i <= v@.len(),
            sv == v@,
            old(w)@ + enc_bool_elems(sv) == w@ + enc_bool_elems(sv.skip(i as int)),
        decreases v@.len() - i,
    {
        let ghost w1 = w@;
        proof {
            assert(sv.skip(i as int).drop_first() =~= sv.skip(i + 1));
            assert(sv.skip(i as int)[0] == sv[i as int]);
        }
        let b = *slice_index_get(v.as_slice(), i);
        w.push(if b {
            1
        } else {
            0
        });
        proof {
            assert(w@ =~= w1 + seq![spec_bool_byte(v@[i as int])]);
        }
        proof {
            assert(w1 + enc_bool_elems(sv.skip(i as int)) =~= w@ + enc_bool_elems(sv.skip(i + 1)));
        }
        i = i + 1;
    }
    proof {
        assert(sv.skip(sv.len() as int) =~= Seq::<bool>::empty());
        assert(w@ =~= old(w)@ + enc_bool_elems(sv));
    }
}

/// Writes the bare payloads of a run of elements.
fn encode_f32_elems_vec(v: &Vec<u32>, w: &mut Vec<u8>)
    ensures
        final(w)@ == old(w)@ + enc_f32_elems(v@),
{
    let ghost sv = v@;
    proof {
        assert(sv.skip(0) =~= sv);
    }
    let mut i: usize = 0;
    while i < v.len()
        invariant
            i <= v@.len(),
            sv == v@,
            old(w)@ + enc_f32_elems(sv) == w@ + enc_f32_elems(sv.skip(i as int)),
        decreases v@.len() - i,
    {
        let ghost w1 = w@;
        proof {
            assert(sv.skip(i as int).drop_first() =~= sv.skip(i + 1));
            assert(sv.skip(i as int)[0] == sv[i as int]);
        }
        push_le32(w, *slice_index_get(v.as_slice(), i));
        proof {
            assert(w1 + enc_f32_elems(sv.skip(i as int)) =~= w@ + enc_f32_elems(sv.skip(i + 1)));
        }
        i = i + 1;
    }
    proof {
        assert(sv.skip(sv.len() as int) =~= Seq::<u32>::empty());
        assert(w@ =~= old(w)@ + enc_f32_elems(sv));
    }
}

/// Writes the bare payloads of a run of elements.
fn encode_f64_elems_vec(v: &Vec<u64>, w: &mut Vec<u8>)
    ensures
        final(w)@ == old(w)@ + enc_f64_elems(v@),
{
    let ghost sv = v@;
    proof {
        assert(sv.skip(0) =~= sv);
    }
    let mut i: usize = 0;
    while i < v.len()
        invariant
            i <= v@.len(),
            sv == v@,
            old(w)@ + enc_f64_elems(sv) == w@ + enc_f64_elems(sv.skip(i as int)),
        decreases v@.len() - i,
    {
        let ghost w1 = w@;
        proof {
            assert(sv.skip(i as int).drop_first() =~= sv.skip(i + 1));
            assert(sv.skip(i as int)[0] == sv[i as int]);
        }
        push_le64(w, *slice_index_get(v.as_slice(), i));
        proof {
            assert(w1 + enc_f64_elems(sv.skip(i as int)) =~= w@ + enc_f64_elems(sv.skip(i + 1)));
        }
        i = i + 1;
    }
    proof {
        assert(sv.skip(sv.len() as int) =~= Seq::<u64>::empty());
        assert(w@ =~= old(w)@ + enc_f64_elems(sv));
    }
}

/// Writes the bare payloads of a run of elements.
fn encode_int_elems_vec(v: &Vec<i64>, w: &mut Vec<u8>)
    ensures
        final(w)@ == old(w)@ + enc_int_elems(v@),
{
    let ghost sv = v@;
    proof {
        assert(sv.skip(0) =~= sv);
    }
    let mut i: usize = 0;
    while i < v.len()
        invariant
            i <= v@.len(),
            sv == v@,
            old(w)@ + enc_int_elems(sv) == w@ + enc_int_elems(sv.skip(i as int)),
        decreases v@.len() - i,
    {
        let ghost w1 = w@;
        proof {
            assert(sv.skip(i as int).drop_first() =~= sv.skip(i + 1));
            assert(sv.skip(i as int)[0] == sv[i as int]);
        }
        write_unsigned(w, crate::zig_zag::into(*slice_index_get(v.as_slice(), i)));
        proof {
            assert(w1 + enc_int_elems(sv.skip(i as int)) =~= w@ + enc_int_elems(sv.skip(i + 1)));
        }
        i = i + 1;
    }
    proof {
        assert(sv.skip(sv.len() as int) =~= Seq::<i64>::empty());
        assert(w@ =~= old(w)@ + enc_int_elems(sv));
    }
}

/// Writes the bare payloads of a run of elements.
fn encode_uint_elems_vec(v: &Vec<u64>, w: &mut Vec<u8>)
    ensures
        final(w)@ == old(w)@ + enc_uint_elems(v@),
{
    let ghost sv = v@;
    proof {
        assert(sv.skip(0) =~= sv);
    }
    let mut i: usize = 0;
    while i < v.len()
        invariant
            i <= v@.len(),
            sv == v@,
            old(w)@ + enc_uint_elems(sv) == w@ + enc_uint_elems(sv.skip(i as int)),
        decreases v@.len() - i,
    {
        let ghost w1 = w@;
        proof {
            assert(sv.skip(i as int).drop_first() =~= sv.skip(i + 1));
            assert(sv.skip(i as int)[0] == sv[i as int]);
        }
        write_unsigned(w, *slice_index_get(v.as_slice(), i));
        proof {
            assert(w1 + enc_uint_elems(sv.skip(i as int)) =~= w@ + enc_uint_elems(sv.skip(i + 1)));
        }
        i = i + 1;
    }
    proof {
        assert(sv.skip(sv.len() as int) =~= Seq::<u64>::empty());
        assert(w@ =~= old(w)@ + enc_uint_elems(sv));
    }
}

/// Writes the bare payloads of a run of elements.
fn encode_str_elems_vec(v: &Vec<String>, w: &mut Vec<u8>)
    requires
        crate::wire::wf_str_elems(v@.map_values(|x: String| x@)),
    ensures
        final(w)@ == old(w)@ + enc_str_elems(v@.map_values(|x: String| x@)),
{
    let ghost sv = v@.map_values(|x: String| x@);
    proof {
        assert(sv.skip(0) =~= sv);
    }
    let mut i: usize = 0;
    while i < v.len()
        invariant
            i <= v@.len(),
            sv == v@.map_values(|x: String| x@),
            crate::wire::wf_str_elems(sv.skip(i as int)),
            old(w)@ + enc_str_elems(sv) == w@ + enc_str_elems(sv.skip(i as int)),
        decreases v@.len() - i,
    {
        let ghost w1 = w@;
        proof {
            assert(sv.skip(i as int).drop_first() =~= sv.skip(i + 1));
            assert(sv.skip(i as int)[0] == sv[i as int]);
        }
        let st = vstd::slice::slice_index_get(v.as_slice(), i);
        push_len_prefixed(w, st.as_str().as_bytes());
        proof {
            assert(w@ =~= w1 + enc_str(v@[i as int]@));
        }
        proof {
            assert(w1 + enc_str_elems(sv.skip(i as int)) =~= w@ + enc_str_elems(sv.skip(i + 1)));
        }
        i = i + 1;
    }
    proof {
        assert(sv.skip(sv.len() as int) =~= Seq::<Seq<char>>::empty());
        assert(w@ =~= old(w)@ + enc_str_elems(sv));
    }
}

/// Writes the bare payloads of a run of elements.
fn encode_bytes_elems_vec(v: &Vec<Vec<u8>>, w: &mut Vec<u8>)
    requires
        crate::wire::wf_bytes_elems(v@.map_values(|x: Vec<u8>| x@)),
    ensures
        final(w)@ == old(w)@ + enc_bytes_elems(v@.map_values(|x: Vec<u8>| x@)),
{
    let ghost sv = v@.map_values(|x: Vec<u8>| x@);
    proof {
        assert(sv.skip(0) =~= sv);
    }
    let mut i: usize = 0;
    while i < v.len()
        invariant
            i <= v@.len(),
            sv == v@.map_values(|x: Vec<u8>| x@),
            crate::wire::wf_bytes_elems(sv.skip(i as int)),
            old(w)@ + enc_bytes_elems(sv) == w@ + enc_bytes_elems(sv.skip(i as int)),
        decreases v@.len() - i,
    {
        let ghost w1 = w@;
        proof {
            assert(sv.skip(i as int).drop_first() =~= sv.skip(i + 1));
            assert(sv.skip(i as int)[0] == sv[i as int]);
        }
        let b = vstd::slice::slice_index_get(v.as_slice(), i);
        push_len_prefixed(w, b.as_slice());
        proof {
            assert(w1 + enc_bytes_elems(sv.skip(i as int)) =~= w@ + enc_bytes_elems(sv.skip(i + 1)));
        }
        i = i + 1;
    }
    proof {
        assert(sv.skip(sv.len() as int) =~= Seq::<Seq<u8>>::empty());
        assert(w@ =~= old(w)@ + enc_bytes_elems(sv));
    }
}

/// Writes the bare payloads of a run of nested-list elements.
fn encode_list_elems_vec(v: &Vec<List>, w: &mut Vec<u8>)
    requires
        crate::wire::wf_list_elems(crate::decoder::view_lists(v@)),
    ensures
        final(w)@ == old(w)@ + enc_list_elems(crate::decoder::view_lists(v@)),
    decreases *v,
{
    proof {
        assert(v@.skip(0) =~= v@);
    }
    let mut i: usize = 0;
    while i < v.len()
        invariant
            i <= v@.len(),
            crate::wire::wf_list_elems(crate::decoder::view_lists(v@.skip(i as int))),
            old(w)@ + enc_list_elems(crate::decoder::view_lists(v@)) == w@ + enc_list_elems(
                crate::decoder::view_lists(v@.skip(i as int)),
            ),
        decreases v@.len() - i,
    {
        let ghost w1 = w@;
        let ghost tailv = crate::decoder::view_lists(v@.skip(i as int));
        proof {
            assert(v@.skip(i as int).drop_first() =~= v@.skip(i + 1));
            assert(v@.skip(i as int)[0] == v@[i as int]);
            assert(tailv[0] == view_list(v@[i as int]));
            assert(tailv.drop_first() =~= crate::decoder::view_lists(v@.skip(i + 1)));
            assert(decreases_to!(*v => v@[i as int]));
        }
        encode_list(slice_index_get(v.as_slice(), i), w);
        proof {
            assert(w1 + enc_list_elems(tailv) =~= w@ + enc_list_elems(
                crate::decoder::view_lists(v@.skip(i + 1)),
            ));
        }
        i = i + 1;
    }
    proof {
        assert(v@.skip(v@.len() as int) =~= Seq::<List>::empty());
        assert(crate::decoder::view_lists(Seq::<List>::empty()) =~= Seq::<ListV>::empty());
        assert(w@ =~= old(w)@ + enc_list_elems(crate::decoder::view_lists(v@)));
    }
}

/// Writes the bare payloads of a run of nested-record elements, each
/// closed by its own terminator.
fn encode_struct_elems_vec(v: &Vec<Vec<(u32, Value)>>, w: &mut Vec<u8>)
    requires
        crate::wire::wf_struct_elems(crate::decoder::view_structs(v@)),
    ensures
        final(w)@ == old(w)@ + enc_struct_elems(crate::decoder::view_structs(v@)),
    decreases *v,
{
    proof {
        assert(v@.skip(0) =~= v@);
    }
    let mut i: usize = 0;
    while i < v.len()
        invariant
            i <= v@.len(),
            crate::wire::wf_struct_elems(crate::decoder::view_structs(v@.skip(i as int))),
            old(w)@ + enc_struct_elems(crate::decoder::view_structs(v@)) == w@ + enc_struct_elems(
                crate::decoder::view_structs(v@.skip(i as int)),
            ),
        decreases v@.len() - i,
    {
        let ghost w1 = w@;
        let ghost tailv = crate::decoder::view_structs(v@.skip(i as int));
        proof {
            assert(v@.skip(i as int).drop_first() =~= v@.skip(i + 1));
            assert(v@.skip(i as int)[0] == v@[i as int]);
            assert(tailv[0] == view_fields(v@[i as int]@));
            assert(tailv.drop_first() =~= crate::decoder::view_structs(v@.skip(i + 1)));
            assert(decreases_to!(*v => v@[i as int]));
        }
        encode_fields(slice_index_get(v.as_slice(), i), w);
        w.push(10);
        proof {
            assert(w@ =~= w1 + enc_struct(view_fields(v@[i as int]@)));
            assert(w1 + enc_struct_elems(tailv) =~= w@ + enc_struct_elems(
                crate::decoder::view_structs(v@.skip(i + 1)),
            ));
        }
        i = i + 1;
    }
    proof {
        assert(v@.skip(v@.len() as int) =~= Seq::<Vec<(u32, Value)>>::empty());
        assert(crate::decoder::view_structs(Seq::<Vec<(u32, Value)>>::empty()) =~= Seq::<
            Seq<(u32, ValueV)>,
        >::empty());
        assert(w@ =~= old(w)@ + enc_struct_elems(crate::decoder::view_structs(v@)));
    }
}

/// A list of lists views to as many abstract elements.
proof fn lemma_view_lists_len(s: Seq<List>)
    ensures
        crate::decoder::view_lists(s).len() == s.len(),
    decreases s.len(),
{
    if s.len() > 0 {
        lemma_view_lists_len(s.drop_first());
    }
}

/// A list of records views to as many abstract elements.
proof fn lemma_view_structs_len(s: Seq<Vec<(u32, Value)>>)
    ensures
        crate::decoder::view_structs(s).len() == s.len(),
    decreases s.len(),
{
    if s.len() > 0 {
        lemma_view_structs_len(s.drop_first());
    }
}

} // verus!
