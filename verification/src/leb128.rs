//! Unsigned varints: little-endian base-128 groups.
//!
//! Each byte carries seven payload bits in its low half; the high bit is
//! a continuation flag. Reading fails with [`Error::UnexpectedEof`] when
//! the buffer runs out mid-sequence and with [`Error::VarintOverflow`]
//! when the sequence would need more than 64 bits of payload.

use vstd::prelude::*;
use vstd::arithmetic::power2::{
    lemma2_to64, lemma_pow2_adds, lemma_pow2_pos, lemma_pow2_strictly_increases, pow2,
};

use crate::errors::Error;
use crate::utils::read_byte;

verus! {

/// The canonical varint encoding of an unsigned 64-bit value: the
/// shortest little-endian base-128 byte sequence that denotes it.
pub open spec fn spec_varint(v: u64) -> Seq<u8>
    decreases v,
{
    if v < 128 {
        seq![v as u8]
    } else {
        seq![(v % 128 + 128) as u8] + spec_varint(v / 128)
    }
}

/// What reading a varint from the front of `bytes` yields, with `bits`
/// bits of payload budget left (64 at the top level): the value and the
/// number of bytes consumed, or the error. A continuation when fewer
/// than eight budget bits remain, or a final group that overflows the
/// budget, is a varint overflow.
pub open spec fn dec_varint_rec(bytes: Seq<u8>, bits: nat) -> Result<(u64, nat), Error>
    decreases bytes.len(),
{
    if bytes.len() == 0 {
        Err(Error::UnexpectedEof)
    } else {
        let low = bytes[0] % 128;
        if bytes[0] < 128 {
            if bits >= 7 || low <= 1 {
                Ok((low as u64, 1))
            } else {
                Err(Error::VarintOverflow)
            }
        } else {
            if bits < 8 {
                Err(Error::VarintOverflow)
            } else {
                match dec_varint_rec(bytes.skip(1), (bits - 7) as nat) {
                    Ok((v, n)) => Ok(((v * 128 + low) as u64, n + 1)),
                    Err(e) => Err(e),
                }
            }
        }
    }
}

/// Reading a varint with the full 64-bit budget.
pub open spec fn dec_varint(bytes: Seq<u8>) -> Result<(u64, nat), Error> {
    dec_varint_rec(bytes, 64)
}

/// A successfully read varint fits its bit budget: the value is below
/// `2^bits`, and at least one byte was consumed.
pub proof fn lemma_dec_varint_bound(bytes: Seq<u8>, bits: nat, v: u64, n: nat)
    requires
        1 <= bits <= 64,
        dec_varint_rec(bytes, bits) == Ok::<(u64, nat), Error>((v, n)),
    ensures
        (v as nat) < pow2(bits),
        1 <= n <= bytes.len(),
    decreases bytes.len(),
{
    lemma2_to64();
    let low = bytes[0] % 128;
    if bytes[0] < 128 {
        if bits >= 7 {
            if bits > 7 {
                lemma_pow2_strictly_increases(7, bits);
            }
        } else {
            if bits > 1 {
                lemma_pow2_strictly_increases(1, bits);
            }
        }
    } else {
        let inner = dec_varint_rec(bytes.skip(1), (bits - 7) as nat);
        let (v0, n0) = inner.unwrap();
        lemma_dec_varint_bound(bytes.skip(1), (bits - 7) as nat, v0, n0);
        lemma_pow2_adds((bits - 7) as nat, 7);
        assert((v0 as nat) * 128 + low < pow2((bits - 7) as nat) * pow2(7)) by (nonlinear_arith)
            requires
                (v0 as nat) < pow2((bits - 7) as nat),
                low < 128,
                pow2(7) == 128,
        ;
        if bits < 64 {
            lemma_pow2_strictly_increases(bits, 64);
        }
        assert((v0 as nat) * 128 + low < pow2(64));
    }
}

proof fn lemma_varint_roundtrip_rec(v: u64, rest: Seq<u8>, bits: nat)
    requires
        bits <= 64,
        bits % 7 == 1,
        (v as nat) < pow2(bits),
    ensures
        dec_varint_rec(spec_varint(v) + rest, bits) == Ok::<(u64, nat), Error>(
            (v, spec_varint(v).len()),
        ),
    decreases v,
{
    lemma2_to64();
    let bytes = spec_varint(v) + rest;
    if v < 128 {
        assert(bytes[0] == v as u8);
        if bits < 7 {
            assert(bits == 1);
            assert((v as nat) < pow2(1));
        }
    } else {
        assert(bytes[0] == (v % 128 + 128) as u8);
        assert(bits >= 8) by {
            if bits == 1 {
                assert((v as nat) < pow2(1));
            }
        }
        lemma_pow2_adds((bits - 7) as nat, 7);
        assert(((v / 128) as nat) < pow2((bits - 7) as nat)) by (nonlinear_arith)
            requires
                (v as nat) < pow2((bits - 7) as nat) * pow2(7),
                pow2(7) == 128,
        ;
        lemma_varint_roundtrip_rec(v / 128, rest, (bits - 7) as nat);
        assert(bytes.skip(1) =~= spec_varint(v / 128) + rest);
        assert(v / 128 * 128 + v % 128 == v);
    }
}

/// Decoding the canonical encoding of any value, with anything at all
/// after it, recovers exactly that value and consumes exactly the
/// encoding's bytes.
pub proof fn lemma_varint_roundtrip(v: u64, rest: Seq<u8>)
    ensures
        dec_varint(spec_varint(v) + rest) == Ok::<(u64, nat), Error>(
            (v, spec_varint(v).len()),
        ),
{
    lemma2_to64();
    lemma_varint_roundtrip_rec(v, rest, 64);
}

/// The canonical encoding is minimal: any byte sequence that decodes to
/// a value is at least as long as that value's canonical encoding.
pub proof fn lemma_varint_minimal(bytes: Seq<u8>, bits: nat, v: u64, n: nat)
    requires
        1 <= bits <= 64,
        dec_varint_rec(bytes, bits) == Ok::<(u64, nat), Error>((v, n)),
    ensures
        spec_varint(v).len() <= n,
    decreases bytes.len(),
{
    lemma2_to64();
    let low = bytes[0] % 128;
    if bytes[0] < 128 {
    } else {
        let inner = dec_varint_rec(bytes.skip(1), (bits - 7) as nat);
        let (v0, n0) = inner.unwrap();
        lemma_dec_varint_bound(bytes.skip(1), (bits - 7) as nat, v0, n0);
        lemma_pow2_adds((bits - 7) as nat, 7);
        if bits < 64 {
            lemma_pow2_strictly_increases(bits, 64);
        }
        assert((v0 as nat) * 128 + low < pow2((bits - 7) as nat) * pow2(7)) by (nonlinear_arith)
            requires
                (v0 as nat) < pow2((bits - 7) as nat),
                low < 128,
                pow2(7) == 128,
        ;
        assert(v == v0 * 128 + low);
        lemma_varint_minimal(bytes.skip(1), (bits - 7) as nat, v0, n0);
        if v0 == 0 {
            assert(v < 128);
        } else {
            assert(v >= 128) by (nonlinear_arith)
                requires
                    v == v0 * 128 + low,
                    v0 >= 1,
            ;
            assert(v / 128 == v0) by (nonlinear_arith)
                requires
                    v == v0 * 128 + low,
                    low < 128,
            ;
        }
    }
}

/// Reads one varint group and recurses for the rest, with `bits` payload
/// bits of budget left.
fn read_unsigned_rec(input: &[u8], pos: &mut usize, bits: u64) -> (r: Result<u64, Error>)
    requires
        1 <= bits <= 64,
        *old(pos) <= input@.len(),
    ensures
        *old(pos) <= *final(pos) <= input@.len(),
        match r {
            Ok(v) => dec_varint_rec(input@.skip(*old(pos) as int), bits as nat)
                == Ok::<(u64, nat), Error>((v, (*final(pos) - *old(pos)) as nat)),
            Err(e) => dec_varint_rec(input@.skip(*old(pos) as int), bits as nat)
                == Err::<(u64, nat), Error>(e),
        },
    decreases bits,
{
    let ghost s = input@.skip(*pos as int);
    let b = match read_byte(input, pos) {
        Ok(b) => b,
        Err(e) => {
            return Err(e);
        },
    };
    assert(s[0] == b);
    let low = b % 128;
    if b < 128 {
        if bits >= 7 || low <= 1 {
            Ok(low as u64)
        } else {
            Err(Error::VarintOverflow)
        }
    } else {
        if bits < 8 {
            Err(Error::VarintOverflow)
        } else {
            let ghost mid = *pos;
            match read_unsigned_rec(input, pos, bits - 7) {
                Ok(v) => {
                    assert(input@.skip(mid as int) =~= s.skip(1));
                    proof {
                        lemma_dec_varint_bound(
                            s.skip(1),
                            (bits - 7) as nat,
                            v,
                            (*pos - mid) as nat,
                        );
                        lemma_pow2_adds((bits - 7) as nat, 7);
                        lemma2_to64();
                        if bits < 64 {
                            lemma_pow2_strictly_increases(bits as nat, 64);
                        }
                        assert((v as nat) * 128 + low < pow2((bits - 7) as nat) * pow2(7))
                            by (nonlinear_arith)
                            requires
                                (v as nat) < pow2((bits - 7) as nat),
                                low < 128,
                                pow2(7) == 128,
                        ;
                    }
                    Ok(v * 128 + low as u64)
                },
                Err(e) => {
                    assert(input@.skip(mid as int) =~= s.skip(1));
                    Err(e)
                },
            }
        }
    }
}

/// Reads one unsigned varint from `input` at `*pos`, advancing the
/// cursor past it.
pub fn read_unsigned(input: &[u8], pos: &mut usize) -> (r: Result<u64, Error>)
    requires
        *old(pos) <= input@.len(),
    ensures
        *old(pos) <= *final(pos) <= input@.len(),
        match r {
            Ok(v) => dec_varint(input@.skip(*old(pos) as int))
                == Ok::<(u64, nat), Error>((v, (*final(pos) - *old(pos)) as nat)),
            Err(e) => dec_varint(input@.skip(*old(pos) as int))
                == Err::<(u64, nat), Error>(e),
        },
{
    read_unsigned_rec(input, pos, 64)
}

/// Appends the canonical varint encoding of `v` to `w`.
pub fn write_unsigned(w: &mut Vec<u8>, v: u64)
    ensures
        final(w)@ == old(w)@ + spec_varint(v),
{
    let ghost w0 = w@;
    let mut x = v;
    while x >= 128
        invariant
            w@ + spec_varint(x) == w0 + spec_varint(v),
        decreases x,
    {
        w.push((x % 128 + 128) as u8);
        x = x / 128;
    }
    w.push(x as u8);
    assert(w@ =~= w0 + spec_varint(v));
}

} // verus!
