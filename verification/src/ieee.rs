//! Narrowing of IEEE 754 binary64 bit patterns to binary32 bit patterns, in
//! integer arithmetic: round to nearest, ties to even.

use vstd::arithmetic::div_mod::{lemma_basic_div, lemma_small_mod};
use vstd::arithmetic::power2::{
    lemma2_to64,
    lemma2_to64_rest,
    lemma_pow2_strictly_increases,
    lemma_pow2_unfold,
    pow2,
};
use vstd::prelude::*;

verus! {

/// `a / d` rounded to the nearest integer, a tie going to the even neighbour.
pub open spec fn round_half_even(a: nat, d: nat) -> nat {
    let q = a / d;
    let r = a % d;
    if 2 * r > d || (2 * r == d && q % 2 == 1) {
        q + 1
    } else {
        q
    }
}

/// The magnitude bits (exponent and fraction) of the binary32 number nearest to the
/// finite, normal binary64 number with biased exponent `exp` and fraction `frac`.
///
/// The 53-bit significand is rounded at the precision that the target has at this
/// exponent: 24 bits in the normal range, fewer below it, where the result is
/// subnormal. A carry out of the fraction moves into the exponent, and a result past
/// the largest finite number is infinity.
pub open spec fn narrowed_magnitude(exp: nat, frac: nat) -> nat {
    let sig = 0x10_0000_0000_0000 + frac;
    let m: nat = if exp >= 897 {
        ((exp - 897) * 0x80_0000 + round_half_even(sig, 0x2000_0000)) as nat
    } else {
        round_half_even(sig, pow2((926 - exp) as nat))
    };
    if m >= 0x7F80_0000 {
        0x7F80_0000
    } else {
        m
    }
}

/// The binary32 bit pattern that a binary64 bit pattern narrows to.
///
/// Zeros and subnormal inputs give a zero, infinities stay infinities, and a NaN
/// gives a quiet NaN with the leading payload bits; the sign is kept throughout.
pub open spec fn single_from_double(bits: u64) -> u32 {
    let sign = bits as nat / 0x8000_0000_0000_0000;
    let exp = (bits as nat / 0x10_0000_0000_0000) % 2048;
    let frac = bits as nat % 0x10_0000_0000_0000;
    let mag: nat = if exp == 2047 {
        if frac == 0 {
            0x7F80_0000
        } else {
            let payload = frac / 0x2000_0000;
            0x7F80_0000 + if payload >= 0x40_0000 {
                payload
            } else {
                payload + 0x40_0000
            }
        }
    } else if exp == 0 {
        0
    } else {
        narrowed_magnitude(exp, frac)
    };
    (sign * 0x8000_0000 + mag) as u32
}

fn round_div(a: u64, d: u64) -> (r: u64)
    requires
        0 < d,
        a < 0x8000_0000_0000_0000,
    ensures
        r == round_half_even(a as nat, d as nat),
{
    let q = a / d;
    let rem = a % d;
    if rem > d - rem || (rem == d - rem && q % 2 == 1) {
        q + 1
    } else {
        q
    }
}

fn pow2_of(n: u64) -> (r: u64)
    requires
        n <= 62,
    ensures
        r == pow2(n as nat),
        0 < r <= 0x4000_0000_0000_0000,
{
    let mut r: u64 = 1;
    let mut i: u64 = 0;
    proof {
        lemma2_to64();
        lemma2_to64_rest();
    }
    while i < n
        invariant
            i <= n <= 62,
            r == pow2(i as nat),
            0 < r,
            pow2(62) == 0x4000_0000_0000_0000,
        decreases n - i,
    {
        proof {
            lemma_pow2_unfold((i + 1) as nat);
            if i + 1 < 62 {
                lemma_pow2_strictly_increases((i + 1) as nat, 62);
            }
        }
        r = r * 2;
        i = i + 1;
    }
    proof {
        if n < 62 {
            lemma_pow2_strictly_increases(n as nat, 62);
        }
    }
    r
}

/// Narrows a binary64 bit pattern to the binary32 bit pattern of the nearest number.
pub fn narrow_double(bits: u64) -> (r: u32)
    ensures
        r == single_from_double(bits),
{
    let sign: u64 = bits / 0x8000_0000_0000_0000;
    let exp: u64 = (bits / 0x10_0000_0000_0000) % 2048;
    let frac: u64 = bits % 0x10_0000_0000_0000;
    let mag: u64 = if exp == 2047 {
        if frac == 0 {
            0x7F80_0000
        } else {
            let payload: u64 = frac / 0x2000_0000;
            if payload >= 0x40_0000 {
                0x7F80_0000 + payload
            } else {
                0x7F80_0000 + payload + 0x40_0000
            }
        }
    } else if exp == 0 {
        0
    } else {
        let sig: u64 = 0x10_0000_0000_0000 + frac;
        let m: u64 = if exp >= 897 {
            (exp - 897) * 0x80_0000 + round_div(sig, 0x2000_0000)
        } else {
            let shift: u64 = 926 - exp;
            if shift >= 54 {
                proof {
                    lemma2_to64_rest();
                    if shift > 54 {
                        lemma_pow2_strictly_increases(54, shift as nat);
                    }
                    let d = pow2(shift as nat);
                    lemma_basic_div(sig as int, d as int);
                    lemma_small_mod(sig as nat, d);
                }
                0
            } else {
                round_div(sig, pow2_of(shift))
            }
        };
        if m >= 0x7F80_0000 {
            0x7F80_0000
        } else {
            m
        }
    };
    (sign * 0x8000_0000 + mag) as u32
}

} // verus!
