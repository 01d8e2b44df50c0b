//! Byte-buffer emission helpers: appending text, decimal numbers and
//! zero-padded offsets to a growing byte vector, each specified exactly.

use vstd::prelude::*;
use vstd::string::StringSliceAdditionalSpecFns;

verus! {

/// The ASCII decimal digits of `n`, most significant first, no sign and no
/// leading zeros (`0` is written as the single digit `0`).
pub open spec fn dec_u64(n: nat) -> Seq<u8>
    decreases n,
{
    if n < 10 {
        seq![(48 + n) as u8]
    } else {
        dec_u64(n / 10).push((48 + n % 10) as u8)
    }
}

/// The ASCII decimal digits of the integer `n`, with a leading minus sign
/// when `n` is negative.
pub open spec fn dec_i32(n: int) -> Seq<u8> {
    if n < 0 {
        seq![45u8] + dec_u64((-n) as nat)
    } else {
        dec_u64(n as nat)
    }
}

/// The digits of `n` zero-padded on the left to ten characters; numbers
/// with more digits keep them all.
pub open spec fn pad10(n: nat) -> Seq<u8> {
    if dec_u64(n).len() >= 10 {
        dec_u64(n)
    } else {
        Seq::<u8>::new((10 - dec_u64(n).len()) as nat, |i: int| 48u8) + dec_u64(n)
    }
}

/// Append the bytes of `s` to `out`.
pub fn push_bytes(out: &mut Vec<u8>, s: &[u8])
    ensures
        final(out)@ == old(out)@ + s@,
{
    let n = s.len();
    let mut i: usize = 0;
    while i < n
        invariant
            i <= n,
            n == s@.len(),
            out@ =~= old(out)@ + s@.take(i as int),
        decreases n - i,
    {
        out.push(s[i]);
        proof {
            assert(s@.take(i + 1) =~= s@.take(i as int).push(s@[i as int]));
        }
        i = i + 1;
    }
    proof {
        assert(s@.take(n as int) =~= s@);
    }
}

/// Append the UTF-8 bytes of `s` to `out`.
pub fn push_str(out: &mut Vec<u8>, s: &str)
    ensures
        final(out)@ == old(out)@ + s.spec_bytes(),
{
    push_bytes(out, s.as_bytes());
}

/// Append the decimal digits of `n` to `out`.
pub fn push_u64_dec(out: &mut Vec<u8>, n: u64)
    ensures
        final(out)@ == old(out)@ + dec_u64(n as nat),
    decreases n,
{
    if n >= 10 {
        push_u64_dec(out, n / 10);
        out.push(48 + (n % 10) as u8);
        proof {
            assert(old(out)@ + dec_u64((n / 10) as nat).push((48 + n as nat % 10) as u8) =~= (old(
                out,
            )@ + dec_u64((n / 10) as nat)).push((48 + n as nat % 10) as u8));
        }
    } else {
        out.push(48 + n as u8);
        proof {
            assert(old(out)@ + dec_u64(n as nat) =~= old(out)@.push((48 + n as nat) as u8));
        }
    }
}

/// Append the signed decimal digits of `n` to `out`.
pub fn push_i32_dec(out: &mut Vec<u8>, n: i32)
    ensures
        final(out)@ == old(out)@ + dec_i32(n as int),
{
    if n < 0 {
        out.push(45);
        let magnitude: u64 = (-(n as i64)) as u64;
        push_u64_dec(out, magnitude);
        proof {
            assert(old(out)@ + (seq![45u8] + dec_u64((-(n as int)) as nat)) =~= old(out)@.push(45u8)
                + dec_u64((-(n as int)) as nat));
        }
    } else {
        push_u64_dec(out, n as u64);
    }
}

/// Append the digits of `n`, zero-padded on the left to ten characters.
pub fn push_u64_pad10(out: &mut Vec<u8>, n: u64)
    ensures
        final(out)@ == old(out)@ + pad10(n as nat),
{
    let mut digits: Vec<u8> = Vec::new();
    push_u64_dec(&mut digits, n);
    let width = digits.len();
    if width < 10 {
        let mut i: usize = width;
        while i < 10
            invariant
                width <= i <= 10,
                width == dec_u64(n as nat).len(),
                out@ =~= old(out)@ + Seq::<u8>::new((i - width) as nat, |j: int| 48u8),
            decreases 10 - i,
        {
            out.push(48);
            proof {
                assert(Seq::<u8>::new((i + 1 - width) as nat, |j: int| 48u8) =~= Seq::<u8>::new(
                    (i - width) as nat,
                    |j: int| 48u8,
                ).push(48u8));
            }
            i = i + 1;
        }
    }
    push_bytes(out, digits.as_slice());
    proof {
        assert(out@ =~= old(out)@ + pad10(n as nat));
    }
}

} // verus!
