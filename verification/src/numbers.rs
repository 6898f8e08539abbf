//! Reading 64-bit floating-point numbers from their IEEE-754 bit pattern.
//!
//! Firmwares write some integral settings (quotas, targets) as JSON numbers
//! with a fraction part.  The library keeps such numbers by their bits and
//! reads them here with integer arithmetic only.
use vstd::prelude::*;
use vstd::arithmetic::power2::pow2;
use crate::json::{JsonNumber, JsonV};

verus! {

/// The sign bit.
pub open spec fn f64_sign(bits: u64) -> nat {
    bits as nat / 0x8000_0000_0000_0000
}

/// The biased exponent field.
pub open spec fn f64_exponent(bits: u64) -> nat {
    (bits as nat / 0x10_0000_0000_0000) % 2048
}

/// The fraction field.
pub open spec fn f64_fraction(bits: u64) -> nat {
    bits as nat % 0x10_0000_0000_0000
}

/// Whether the number is finite (neither infinite nor NaN).
pub open spec fn f64_is_finite(bits: u64) -> bool {
    f64_exponent(bits) != 2047
}

/// Whether the number is a zero (of either sign).
pub open spec fn f64_is_zero(bits: u64) -> bool {
    f64_exponent(bits) == 0 && f64_fraction(bits) == 0
}

/// Whether the number is a NaN.
pub open spec fn f64_is_nan(bits: u64) -> bool {
    f64_exponent(bits) == 2047 && f64_fraction(bits) != 0
}

/// `x > 0.0`.
pub open spec fn f64_gt_zero(bits: u64) -> bool {
    f64_sign(bits) == 0 && !f64_is_zero(bits) && !f64_is_nan(bits)
}

/// `x >= 0.0`.
pub open spec fn f64_ge_zero(bits: u64) -> bool {
    !f64_is_nan(bits) && (f64_sign(bits) == 0 || f64_is_zero(bits))
}

/// The significand of a finite number: the value is `significand * 2^(-scale)`.
pub open spec fn f64_significand(bits: u64) -> nat {
    if f64_exponent(bits) == 0 {
        f64_fraction(bits)
    } else {
        f64_fraction(bits) + 0x10_0000_0000_0000
    }
}

/// The power of two a finite number's significand is divided by (may be
/// negative: then it multiplies).
pub open spec fn f64_scale(bits: u64) -> int {
    if f64_exponent(bits) == 0 {
        1074
    } else {
        1075 - f64_exponent(bits)
    }
}

/// `x.round()` for a finite `x >= 0`: the nearest integer, halves rounded up.
pub open spec fn f64_round_nonneg(bits: u64) -> nat {
    let m = f64_significand(bits);
    let s = f64_scale(bits);
    if s <= 0 {
        m * pow2((-s) as nat)
    } else {
        (m + pow2((s - 1) as nat)) / pow2(s as nat)
    }
}

/// `x.round() as u32` (saturating) when `x` is finite and `x >= 0.0`.
pub open spec fn f64_round_to_u32(bits: u64) -> Option<u32> {
    if f64_is_finite(bits) && f64_ge_zero(bits) {
        let r = f64_round_nonneg(bits);
        Some(if r > u32::MAX {
            u32::MAX
        } else {
            r as u32
        })
    } else {
        None
    }
}

/// `Value::as_f64(v) > 0.0` for a JSON number.
pub open spec fn number_gt_zero(n: JsonNumber) -> bool {
    match n {
        JsonNumber::PosInt(v) => v > 0,
        JsonNumber::NegInt(_) => false,
        JsonNumber::Float(bits) => f64_gt_zero(bits),
    }
}

/// `v.as_f64().map(|x| x > 0.0)`.
pub open spec fn json_gt_zero(v: JsonV) -> Option<bool> {
    match v {
        JsonV::Number(n) => Some(number_gt_zero(n)),
        _ => None,
    }
}

/// Whether a floating-point number is greater than zero.
pub fn float_gt_zero(bits: u64) -> (r: bool)
    ensures
        r == f64_gt_zero(bits),
{
    let sign = bits / 0x8000_0000_0000_0000;
    let exponent = (bits / 0x10_0000_0000_0000) % 2048;
    let fraction = bits % 0x10_0000_0000_0000;
    sign == 0 && !(exponent == 0 && fraction == 0) && !(exponent == 2047 && fraction != 0)
}

/// Whether a JSON number is greater than zero.
pub fn number_is_positive(n: &JsonNumber) -> (r: bool)
    ensures
        r == number_gt_zero(*n),
{
    match n {
        JsonNumber::PosInt(v) => *v > 0,
        JsonNumber::NegInt(_) => false,
        JsonNumber::Float(bits) => float_gt_zero(*bits),
    }
}

/// `2^e` for a small `e`.
fn pow2_u64(e: u64) -> (r: u64)
    requires
        e < 64,
    ensures
        r as nat == pow2(e as nat),
{
    let mut p: u64 = 1;
    let mut i: u64 = 0;
    proof {
        vstd::arithmetic::power2::lemma_pow2(0);
        vstd::arithmetic::power::lemma_pow0(2);
    }
    while i < e
        invariant
            i <= e,
            e < 64,
            p as nat == pow2(i as nat),
        decreases e - i,
    {
        proof {
            vstd::arithmetic::power2::lemma_pow2_unfold((i + 1) as nat);
            vstd::arithmetic::power2::lemma_pow2_strictly_increases((i + 1) as nat, 64);
            vstd::arithmetic::power2::lemma2_to64();
                vstd::arithmetic::power2::lemma2_to64_rest();
        }
        p = p * 2;
        i = i + 1;
    }
    p
}

/// `x.round()` as a `u32` when `x` is finite and `x >= 0.0`: `Some(None)`
/// when the rounded value exceeds `u32::MAX`.
pub open spec fn f64_round_u32_checked(bits: u64) -> Option<Option<u32>> {
    if f64_is_finite(bits) && f64_ge_zero(bits) {
        let r = f64_round_nonneg(bits);
        Some(if r > u32::MAX {
            None
        } else {
            Some(r as u32)
        })
    } else {
        None
    }
}

/// `x.round()` as a `u32` when `x` is finite and not negative, from the
/// bits of `x`: `Some(None)` when the rounded value exceeds `u32::MAX`.
pub fn round_to_u32_checked(bits: u64) -> (r: Option<Option<u32>>)
    ensures
        r == f64_round_u32_checked(bits),
{
    let sign = bits / 0x8000_0000_0000_0000;
    let exponent = (bits / 0x10_0000_0000_0000) % 2048;
    let fraction = bits % 0x10_0000_0000_0000;
    if exponent == 2047 {
        return None;
    }
    if sign != 0 && !(exponent == 0 && fraction == 0) {
        return None;
    }
    let m: u64 = if exponent == 0 { fraction } else { fraction + 0x10_0000_0000_0000 };
    assert(m as nat == f64_significand(bits));
    assert(m < 0x20_0000_0000_0000);
    if exponent >= 1075 {
        // the value is at least 2^52, far above u32::MAX
        let ghost s = f64_scale(bits);
        proof {
            vstd::arithmetic::power2::lemma_pow2_pos((-s) as nat);
            if f64_significand(bits) > 0 {
                assert(m * pow2((-s) as nat) >= m) by (nonlinear_arith)
                    requires pow2((-s) as nat) > 0;
            }
        }
        assert(f64_round_nonneg(bits) >= 0x10_0000_0000_0000);
        return Some(None);
    }
    let scale: u64 = if exponent == 0 { 1074 } else { 1075 - exponent };
    assert(scale as int == f64_scale(bits));
    if scale >= 54 {
        // the value is below 1/2
        proof {
            vstd::arithmetic::power2::lemma_pow2_strictly_increases((scale - 1) as nat, scale as nat);
            if scale - 1 > 53 {
                vstd::arithmetic::power2::lemma_pow2_strictly_increases(53, (scale - 1) as nat);
            }
            vstd::arithmetic::power2::lemma_pow2_adds((scale - 1) as nat, 1);
            vstd::arithmetic::power2::lemma_pow2_unfold(1);
            vstd::arithmetic::power2::lemma_pow2(0);
            vstd::arithmetic::power::lemma_pow0(2);
            assert(pow2(53) == 0x20_0000_0000_0000) by {
                vstd::arithmetic::power2::lemma2_to64();
                vstd::arithmetic::power2::lemma2_to64_rest();
            }
            let h = pow2((scale - 1) as nat);
            let p = pow2(scale as nat);
            assert(p == h * 2);
            assert(((m as nat) + h) / p == 0) by (nonlinear_arith)
                requires m < h, p == h * 2, h > 0;
        }
        return Some(Some(0));
    }
    let half = pow2_u64(scale - 1);
    let p = pow2_u64(scale);
    proof {
        vstd::arithmetic::power2::lemma_pow2_adds((scale - 1) as nat, 1);
        vstd::arithmetic::power2::lemma_pow2_unfold(1);
        vstd::arithmetic::power2::lemma_pow2(0);
        vstd::arithmetic::power::lemma_pow0(2);
        vstd::arithmetic::power2::lemma_pow2_strictly_increases((scale - 1) as nat, 53);
        vstd::arithmetic::power2::lemma2_to64();
                vstd::arithmetic::power2::lemma2_to64_rest();
    }
    let v = (m + half) / p;
    if v > u32::MAX as u64 {
        Some(None)
    } else {
        Some(Some(v as u32))
    }
}

/// `x.round() as u32` (saturating) when `x` is finite and not negative,
/// from the bits of `x`.
pub fn round_to_u32(bits: u64) -> (r: Option<u32>)
    ensures
        r == f64_round_to_u32(bits),
{
    match round_to_u32_checked(bits) {
        None => None,
        Some(None) => Some(u32::MAX),
        Some(Some(v)) => Some(v),
    }
}

} // verus!
