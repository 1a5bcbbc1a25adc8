//! The field store: the ordered key-to-value association a decoded
//! record yields.
//!
//! Insertion order is wire order; duplicate keys are kept as they came,
//! and lookup returns the first match. A failed typed lookup is
//! enriched with the key under lookup before it reaches the caller.

use vstd::prelude::*;

use crate::convert::{ConvertFrom, ConvertSource};
use crate::decoder::{
    lemma_view_fields_len, lemma_view_fields_push, parse_struct, view_fields, view_value, Value,
};
use crate::errors::{ConvertError, Error};
use crate::wire::{dec_struct, ValueV};

verus! {

/// The ordered (key, value) sequence of one decoded record.
#[derive(Debug, PartialEq)]
pub struct Entries(pub Vec<(u32, Value)>);

impl View for Entries {
    type V = Seq<(u32, ValueV)>;

    open spec fn view(&self) -> Seq<(u32, ValueV)> {
        view_fields(self.0@)
    }
}

/// The first value filed under `k`, if any: lookup walks the fields in
/// wire order and stops at the first match, so duplicates are tolerated
/// and the earliest entry wins.
pub open spec fn spec_get(s: Seq<(u32, ValueV)>, k: u32) -> Option<ValueV>
    decreases s.len(),
{
    if s.len() == 0 {
        None
    } else if s[0].0 == k {
        Some(s[0].1)
    } else {
        spec_get(s.drop_first(), k)
    }
}

impl Entries {
    /// An empty store.
    pub fn new() -> (r: Entries)
        ensures
            r@ == Seq::<(u32, ValueV)>::empty(),
    {
        let e = Entries(Vec::new());
        proof {
            assert(e@ =~= Seq::<(u32, ValueV)>::empty());
        }
        e
    }

    /// Reads one record from `input` at `*pos` and wraps its fields.
    pub fn parse(input: &[u8], pos: &mut usize) -> (r: Result<Entries, Error>)
        requires
            *old(pos) <= input@.len(),
        ensures
            *old(pos) <= *final(pos) <= input@.len(),
            match r {
                Ok(e) => dec_struct(input@.skip(*old(pos) as int)) == Ok::<
                    (Seq<(u32, ValueV)>, nat),
                    Error,
                >((e@, (*final(pos) - *old(pos)) as nat)),
                Err(e) => dec_struct(input@.skip(*old(pos) as int)) == Err::<
                    (Seq<(u32, ValueV)>, nat),
                    Error,
                >(e),
            },
    {
        match parse_struct(input, pos) {
            Ok(fields) => Ok(Entries(fields)),
            Err(e) => Err(e),
        }
    }

    /// The first value filed under `k`, if any.
    pub fn get(&self, k: u32) -> (r: Option<&Value>)
        ensures
            match r {
                Some(v) => spec_get(self@, k) == Some(v@),
                None => spec_get(self@, k) is None,
            },
    {
        proof {
            assert(self.0@.skip(0) =~= self.0@);
        }
        let mut i: usize = 0;
        while i < self.0.len()
            invariant
                i <= self.0@.len(),
                spec_get(view_fields(self.0@), k) == spec_get(
                    view_fields(self.0@.skip(i as int)),
                    k,
                ),
            decreases self.0@.len() - i,
        {
            proof {
                assert(self.0@.skip(i as int).drop_first() =~= self.0@.skip(i + 1));
                assert(view_fields(self.0@.skip(i as int))[0] == (
                    self.0@[i as int].0,
                    view_value(self.0@[i as int].1),
                ));
                assert(view_fields(self.0@.skip(i as int)).drop_first() =~= view_fields(
                    self.0@.skip(i + 1),
                ));
            }
            let pair = vstd::slice::slice_index_get(self.0.as_slice(), i);
            if pair.0 == k {
                return Some(&pair.1);
            }
            i = i + 1;
        }
        proof {
            assert(self.0@.skip(self.0@.len() as int) =~= Seq::<(u32, Value)>::empty());
            assert(view_fields(Seq::<(u32, Value)>::empty()) =~= Seq::<(u32, ValueV)>::empty());
        }
        None
    }

    /// Appends one (key, value) pair, keeping whatever is already
    /// filed under the same key.
    pub fn insert(&mut self, key: u32, value: Value)
        ensures
            final(self)@ == old(self)@.push((key, view_value(value))),
    {
        proof {
            lemma_view_fields_push(self.0@, (key, value));
        }
        self.0.push((key, value));
        proof {
            assert(view_fields(self.0@) =~= old(self)@.push((key, view_value(value))));
        }
    }

    /// Looks the key up and projects the result (present or absent)
    /// into the target type, naming the key in any failure.
    pub fn get_and_convert<'v, T: ConvertFrom<Option<&'v Value>>>(&'v self, k: u32) -> (r: Result<
        T,
        ConvertError,
    >)
        ensures
            match r {
                Ok(x) => T::convert_spec(spec_get(self@, k), Ok::<T, ConvertError>(x)),
                Err(e) => {
                    &&& e.key == Some(k)
                    &&& exists|ek: Option<u32>|
                        T::convert_spec(
                            spec_get(self@, k),
                            Err::<T, ConvertError>(ConvertError { kind: e.kind, key: ek }),
                        )
                },
            },
    {
        let looked = self.get(k);
        match T::convert_from(looked) {
            Ok(x) => Ok(x),
            Err(e) => {
                proof {
                    assert(T::convert_spec(
                        spec_get(self@, k),
                        Err::<T, ConvertError>(ConvertError { kind: e.kind, key: e.key }),
                    ));
                }
                Err(ConvertError { kind: e.kind, key: Some(k) })
            },
        }
    }

    /// True when the record had no fields.
    pub fn is_empty(&self) -> (r: bool)
        ensures
            r == (self@.len() == 0),
    {
        proof {
            lemma_view_fields_len(self.0@);
        }
        self.0.is_empty()
    }

    /// How many fields the record carried, duplicates included.
    pub fn len(&self) -> (r: usize)
        ensures
            r == self@.len(),
    {
        proof {
            lemma_view_fields_len(self.0@);
        }
        self.0.len()
    }
}

} // verus!
