//! Widening a binary32 bit pattern into the binary64 bit pattern of the same
//! number, on integers alone.  Measured temperatures arrive from the sensor
//! as binary32 bits; the reply payload carries binary64 bits, and no
//! floating-point type may appear in the verified library, so the exponent
//! is re-biased and the fraction re-aligned arithmetically.

use vstd::prelude::*;

use vstd::arithmetic::mul::lemma_mul_inequality;
use vstd::arithmetic::power2::lemma2_to64;
use vstd::arithmetic::power2::lemma_pow2_strictly_increases;
use vstd::arithmetic::power2::lemma_pow2_unfold;
use vstd::arithmetic::power2::pow2;

verus! {

/// Doubles the fraction until it reaches the normalized range, lowering the
/// exponent in step: the pair keeps denoting the same fixed-point number.
pub open spec fn spec_norm_mantissa(m: nat, e: int) -> (nat, int)
    decreases (if m < 0x80_0000 { (0x80_0000 - m) as nat } else { 0nat }),
{
    if m == 0 || m >= 0x80_0000 {
        (m, e)
    } else {
        spec_norm_mantissa(2 * m, e - 1)
    }
}

/// The binary64 pattern denoting the same number as the binary32 pattern
/// `b`: the sign moves to the top bit, a normal exponent is re-biased from
/// 127 to 1023, the fraction is left-aligned into the wider field, the
/// all-ones exponent stays all ones, and a subnormal fraction is normalized
/// first (every subnormal binary32 number is a normal binary64 number).
pub open spec fn spec_widen_real(b: u32) -> u64 {
    let sign = (b as nat) / 0x8000_0000;
    let rem = (b as nat) % 0x8000_0000;
    let exp = rem / 0x80_0000;
    let frac = rem % 0x80_0000;
    if exp == 255 {
        (sign * 0x8000_0000_0000_0000 + 0x7ff * 0x10_0000_0000_0000 + frac * 0x2000_0000) as u64
    } else if exp == 0 && frac == 0 {
        (sign * 0x8000_0000_0000_0000) as u64
    } else if exp == 0 {
        let (m, e2) = spec_norm_mantissa(frac, -126);
        (sign * 0x8000_0000_0000_0000 + ((e2 + 1023) as nat) * 0x10_0000_0000_0000 + ((
        m - 0x80_0000) as nat) * 0x2000_0000) as u64
    } else {
        (sign * 0x8000_0000_0000_0000 + (exp + 896) * 0x10_0000_0000_0000 + frac
            * 0x2000_0000) as u64
    }
}

/// Computes the binary64 bits for the binary32 bits `b`.
pub fn widen_real_bits(b: u32) -> (r: u64)
    ensures
        r == spec_widen_real(b),
{
    let sign: u32 = b / 0x8000_0000;
    let rem: u32 = b % 0x8000_0000;
    let exp: u32 = rem / 0x80_0000;
    let frac: u32 = rem % 0x80_0000;
    let sign64: u64 = (sign as u64) * 0x8000_0000_0000_0000;
    if exp == 255 {
        sign64 + 0x7ffu64 * 0x10_0000_0000_0000 + (frac as u64) * 0x2000_0000
    } else if exp == 0 && frac == 0 {
        sign64
    } else if exp == 0 {
        let mut m: u32 = frac;
        let mut e: i32 = -126;
        proof {
            lemma2_to64();
            assert((frac as nat) * pow2(0) == frac as nat);
        }
        while m < 0x80_0000
            invariant
                1 <= frac < 0x80_0000,
                1 <= m < 0x100_0000,
                -149 <= e <= -126,
                m as nat == (frac as nat) * pow2((-126 - e) as nat),
                spec_norm_mantissa(frac as nat, -126) == spec_norm_mantissa(m as nat, e as int),
            decreases 0x100_0000 - m,
        {
            proof {
                let k = (-126 - e) as nat;
                lemma_mul_inequality(1, frac as int, pow2(k) as int);
                if k >= 23 {
                    if k > 23 {
                        lemma_pow2_strictly_increases(23, k);
                    }
                    lemma2_to64();
                    assert(false);
                }
                lemma_pow2_unfold((k + 1) as nat);
                assert((frac as int) * (2 * pow2(k) as int) == 2 * ((frac as int) * pow2(
                    k,
                ) as int)) by (nonlinear_arith);
            }
            m = m * 2;
            e = e - 1;
        }
        let eb: u64 = (e + 1023) as u64;
        sign64 + eb * 0x10_0000_0000_0000 + ((m - 0x80_0000) as u64) * 0x2000_0000
    } else {
        sign64 + ((exp + 896) as u64) * 0x10_0000_0000_0000 + (frac as u64) * 0x2000_0000
    }
}

} // verus!
