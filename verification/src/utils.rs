//! Bounds-checked, forward-only reads over a borrowed byte buffer.
//!
//! The cursor is a position into the buffer; every read either advances
//! it or fails with [`Error::UnexpectedEof`] and leaves it in place.

use vstd::prelude::*;
use vstd::slice::{slice_index_get, slice_subrange, slice_to_vec};

use crate::errors::{eof, Error};

verus! {

/// Reads the single byte at the cursor.
pub fn read_byte(input: &[u8], pos: &mut usize) -> (r: Result<u8, Error>)
    requires
        *old(pos) <= input@.len(),
    ensures
        *old(pos) <= *final(pos) <= input@.len(),
        match r {
            Ok(b) => *final(pos) == *old(pos) + 1 && *old(pos) < input@.len() && b == input@[*old(
                pos,
            ) as int],
            Err(e) => e == Error::UnexpectedEof && *old(pos) == input@.len() && *final(pos) == *old(
                pos,
            ),
        },
{
    if *pos < input.len() {
        let b = *slice_index_get(input, *pos);
        *pos = *pos + 1;
        Ok(b)
    } else {
        Err(eof())
    }
}

/// Borrows the next `len` bytes without copying, advancing the cursor
/// past them.
pub fn read_bytes<'a>(input: &'a [u8], pos: &mut usize, len: usize) -> (r: Result<&'a [u8], Error>)
    requires
        *old(pos) <= input@.len(),
    ensures
        *old(pos) <= *final(pos) <= input@.len(),
        match r {
            Ok(s) => {
                &&& *final(pos) == *old(pos) + len
                &&& s@ == input@.subrange(*old(pos) as int, *final(pos) as int)
            },
            Err(e) => {
                &&& e == Error::UnexpectedEof
                &&& input@.len() < *old(pos) + len
                &&& *final(pos) == *old(pos)
            },
        },
{
    if len <= input.len() - *pos {
        let start = *pos;
        *pos = *pos + len;
        Ok(slice_subrange(input, start, *pos))
    } else {
        Err(eof())
    }
}

/// Copies the next `len` bytes into a fresh buffer, advancing the cursor
/// past them.
pub fn read_buf(input: &[u8], pos: &mut usize, len: usize) -> (r: Result<Vec<u8>, Error>)
    requires
        *old(pos) <= input@.len(),
    ensures
        *old(pos) <= *final(pos) <= input@.len(),
        match r {
            Ok(v) => {
                &&& *final(pos) == *old(pos) + len
                &&& v@ == input@.subrange(*old(pos) as int, *final(pos) as int)
            },
            Err(e) => {
                &&& e == Error::UnexpectedEof
                &&& input@.len() < *old(pos) + len
                &&& *final(pos) == *old(pos)
            },
        },
{
    match read_bytes(input, pos, len) {
        Ok(s) => Ok(slice_to_vec(s)),
        Err(e) => Err(e),
    }
}

} // verus!
