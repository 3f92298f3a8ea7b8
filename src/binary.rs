//! IEEE-754 binary32 ("single") and binary64 ("double") values as bit patterns.
use vstd::arithmetic::power2::*;
use vstd::prelude::*;

verus! {

/// Sign bit of a single.
pub open spec fn single_sign(b: u32) -> nat {
    (b as nat) / 0x8000_0000
}

/// Biased exponent field of a single (8 bits).
pub open spec fn single_exponent(b: u32) -> nat {
    ((b as nat) / 0x80_0000) % 0x100
}

/// Fraction field of a single (23 bits).
pub open spec fn single_fraction(b: u32) -> nat {
    (b as nat) % 0x80_0000
}

pub open spec fn single_is_nan(b: u32) -> bool {
    single_exponent(b) == 0xff && single_fraction(b) != 0
}

pub open spec fn single_is_infinite(b: u32) -> bool {
    single_exponent(b) == 0xff && single_fraction(b) == 0
}

pub open spec fn single_is_finite(b: u32) -> bool {
    single_exponent(b) < 0xff
}

/// Integer significand of a finite single: the fraction, with the hidden bit
/// for a normal number.
pub open spec fn single_significand(b: u32) -> nat {
    if single_exponent(b) == 0 {
        single_fraction(b)
    } else {
        single_fraction(b) + 0x80_0000
    }
}

/// Absolute value of a finite single, counted in units of 2^-149, the
/// smallest positive subnormal single.
pub open spec fn single_magnitude(b: u32) -> nat {
    if single_exponent(b) == 0 {
        single_significand(b)
    } else {
        single_significand(b) * pow2((single_exponent(b) - 1) as nat)
    }
}

/// Sign bit of a double.
pub open spec fn double_sign(b: u64) -> nat {
    (b as nat) / 0x8000_0000_0000_0000
}

/// Biased exponent field of a double (11 bits).
pub open spec fn double_exponent(b: u64) -> nat {
    ((b as nat) / 0x10_0000_0000_0000) % 0x800
}

/// Fraction field of a double (52 bits).
pub open spec fn double_fraction(b: u64) -> nat {
    (b as nat) % 0x10_0000_0000_0000
}

pub open spec fn double_is_nan(b: u64) -> bool {
    double_exponent(b) == 0x7ff && double_fraction(b) != 0
}

pub open spec fn double_is_infinite(b: u64) -> bool {
    double_exponent(b) == 0x7ff && double_fraction(b) == 0
}

pub open spec fn double_is_finite(b: u64) -> bool {
    double_exponent(b) < 0x7ff
}

pub open spec fn double_is_zero(b: u64) -> bool {
    double_exponent(b) == 0 && double_fraction(b) == 0
}

/// Integer significand of a finite double, hidden bit included when normal.
pub open spec fn double_significand(b: u64) -> nat {
    if double_exponent(b) == 0 {
        double_fraction(b)
    } else {
        double_fraction(b) + 0x10_0000_0000_0000
    }
}

/// Absolute value of a finite double, counted in units of 2^-1074, the
/// smallest positive subnormal double.
pub open spec fn double_magnitude(b: u64) -> nat {
    if double_exponent(b) == 0 {
        double_significand(b)
    } else {
        double_significand(b) * pow2((double_exponent(b) - 1) as nat)
    }
}

/// The double whose fields are the given sign, exponent and fraction.
proof fn lemma_double_fields(s: nat, e: nat, f: nat)
    requires
        s < 2,
        e < 0x800,
        f < 0x10_0000_0000_0000,
    ensures
        ({
            let b = (s * 0x8000_0000_0000_0000 + e * 0x10_0000_0000_0000 + f) as u64;
            &&& s * 0x8000_0000_0000_0000 + e * 0x10_0000_0000_0000 + f < 0x1_0000_0000_0000_0000
            &&& double_sign(b) == s
            &&& double_exponent(b) == e
            &&& double_fraction(b) == f
        }),
{
    let n = s * 0x8000_0000_0000_0000 + e * 0x10_0000_0000_0000 + f;
    assert(n == (s * 0x800 + e) * 0x10_0000_0000_0000 + f) by (nonlinear_arith)
        requires n == s * 0x8000_0000_0000_0000 + e * 0x10_0000_0000_0000 + f;
    assert(n / 0x10_0000_0000_0000 == s * 0x800 + e) by (nonlinear_arith)
        requires n == (s * 0x800 + e) * 0x10_0000_0000_0000 + f, f < 0x10_0000_0000_0000;
    assert(n % 0x10_0000_0000_0000 == f) by (nonlinear_arith)
        requires n == (s * 0x800 + e) * 0x10_0000_0000_0000 + f, f < 0x10_0000_0000_0000;
    assert((s * 0x800 + e) % 0x800 == e) by (nonlinear_arith)
        requires e < 0x800;
    assert(n / 0x8000_0000_0000_0000 == s) by (nonlinear_arith)
        requires n == s * 0x8000_0000_0000_0000 + (e * 0x10_0000_0000_0000 + f),
            e * 0x10_0000_0000_0000 + f < 0x8000_0000_0000_0000;
}


/// A single's NaN fraction with the quiet bit (its top bit) set.
pub open spec fn quieted(fraction: nat) -> nat {
    if fraction >= 0x40_0000 {
        fraction
    } else {
        fraction + 0x40_0000
    }
}

/// Position of the highest set bit of a positive number.
pub open spec fn top_bit(n: nat) -> nat
    decreases n,
{
    if n <= 1 {
        0
    } else {
        1 + top_bit(n / 2)
    }
}

proof fn lemma_top_bit(n: nat, k: nat)
    requires
        pow2(k) <= n < pow2(k + 1),
    ensures
        top_bit(n) == k,
    decreases k,
{
    lemma_pow2_unfold(k + 1);
    if k == 0 {
        lemma2_to64();
    } else {
        lemma_pow2_unfold(k);
        lemma_top_bit(n / 2, (k - 1) as nat);
    }
}

/// Exponent and fraction fields of the double that a single widens to.
pub open spec fn widened_fields(b: u32) -> (nat, nat) {
    let e = single_exponent(b);
    let f = single_fraction(b);
    if e == 0xff {
        (0x7ff, if f == 0 { 0 } else { quieted(f) * 0x2000_0000 })
    } else if e == 0 {
        if f == 0 {
            (0, 0)
        } else {
            let k = top_bit(f);
            ((k + 874) as nat, ((f - pow2(k)) * pow2((52 - k) as nat)) as nat)
        }
    } else {
        ((e + 896) as nat, f * 0x2000_0000)
    }
}

/// The double that a single widens to, as a bit pattern.
pub open spec fn widened(b: u32) -> u64 {
    (single_sign(b) * 0x8000_0000_0000_0000 + widened_fields(b).0 * 0x10_0000_0000_0000
        + widened_fields(b).1) as u64
}

/// Widens a single to the double of exactly the same value, the conversion
/// that IEEE-754 prescribes: the sign is kept, a finite value is kept exactly
/// (a subnormal single becomes a normal double), an infinity stays infinite,
/// and a NaN becomes a quiet NaN whose fraction begins with the single's
/// fraction.
pub fn widen_single(b: u32) -> (r: u64)
    ensures
        r == widened(b),
        double_sign(r) == single_sign(b),
        single_is_finite(b) ==> double_is_finite(r) && double_magnitude(r) == single_magnitude(b)
            * pow2(925),
        single_is_infinite(b) ==> double_is_infinite(r),
        single_is_nan(b) ==> double_is_nan(r) && double_fraction(r) == quieted(single_fraction(b))
            * pow2(29),
{
    let sign: u32 = b / 0x8000_0000;
    let exponent: u32 = (b / 0x80_0000) % 0x100;
    let fraction: u32 = b % 0x80_0000;
    proof {
        lemma2_to64();
        lemma2_to64_rest();
        assert(sign < 2) by (nonlinear_arith)
            requires sign == (b as nat) / 0x8000_0000, b < 0x1_0000_0000;
    }
    let mut e: u64 = 0;
    let mut f: u64 = 0;
    if exponent == 0xff {
        e = 0x7ff;
        if fraction >= 0x40_0000 {
            f = fraction as u64 * 0x2000_0000;
        } else if fraction != 0 {
            f = (fraction as u64 + 0x40_0000) * 0x2000_0000;
        }
    } else if exponent == 0 {
        if fraction != 0 {
            // Normalise: p = 2^k is the highest power of two in the fraction,
            // and p * q == 2^52.
            let mut k: u64 = 0;
            let mut p: u64 = 1;
            let mut q: u64 = 0x10_0000_0000_0000;
            while p * 2 <= fraction as u64
                invariant
                    0 < fraction < 0x80_0000,
                    k <= 22,
                    p == pow2(k as nat),
                    q == pow2((52 - k) as nat),
                    1 <= p <= fraction,
                decreases fraction - p,
            {
                proof {
                    lemma_pow2_unfold((k + 1) as nat);
                    lemma2_to64();
                    lemma_pow2_unfold((52 - k) as nat);
                }
                p = p * 2;
                q = q / 2;
                k = k + 1;
            }
            proof {
                lemma_pow2_unfold((k + 1) as nat);
                lemma_top_bit(fraction as nat, k as nat);
                lemma_pow2_pos((52 - k) as nat);
                lemma_pow2_adds(k as nat, (52 - k) as nat);
                lemma_pow2_adds((52 - k) as nat, (k + 873) as nat);
                assert((fraction - p) * q < p * q) by (nonlinear_arith)
                    requires fraction < p * 2, q > 0;
                assert((fraction - p) * q + p * q == fraction * q) by (nonlinear_arith);
                assert(fraction * q * pow2((k + 873) as nat) == fraction * pow2(925)) by (nonlinear_arith)
                    requires q * pow2((k + 873) as nat) == pow2(925);
            }
            e = k + 874;
            f = (fraction as u64 - p) * q;
        }
    } else {
        e = exponent as u64 + 896;
        f = fraction as u64 * 0x2000_0000;
    }
    proof {
        lemma_double_fields(sign as nat, e as nat, f as nat);
        if exponent != 0xff && exponent != 0 {
            lemma_pow2_adds(29, 896);
            lemma_pow2_adds((exponent - 1) as nat, 896);
            assert(double_magnitude((sign as u64 * 0x8000_0000_0000_0000 + e * 0x10_0000_0000_0000 + f) as u64)
                == (fraction + 0x80_0000) * pow2(29) * pow2((exponent - 1 + 896) as nat));
            assert((fraction + 0x80_0000) * pow2(29) * pow2((exponent - 1 + 896) as nat)
                == (fraction + 0x80_0000) * pow2((exponent - 1) as nat) * pow2(925)) by (nonlinear_arith)
                requires pow2(29) * pow2(896) == pow2(925),
                    pow2((exponent - 1) as nat) * pow2(896) == pow2((exponent - 1 + 896) as nat);
        }
    }
    sign as u64 * 0x8000_0000_0000_0000 + e * 0x10_0000_0000_0000 + f
}

/// `==` on doubles: a NaN equals nothing, the two zeros are equal, and
/// otherwise two values are equal when their bits are.
pub open spec fn double_equal(a: u64, b: u64) -> bool {
    !double_is_nan(a) && !double_is_nan(b) && (a == b || (double_is_zero(a) && double_is_zero(
        b,
    )))
}

/// Compares two doubles, given as bit patterns, as `==` on doubles does.
pub fn doubles_equal(a: u64, b: u64) -> (r: bool)
    ensures
        r == double_equal(a, b),
{
    let a_exponent: u64 = (a / 0x10_0000_0000_0000) % 0x800;
    let a_fraction: u64 = a % 0x10_0000_0000_0000;
    let b_exponent: u64 = (b / 0x10_0000_0000_0000) % 0x800;
    let b_fraction: u64 = b % 0x10_0000_0000_0000;
    let a_nan: bool = a_exponent == 0x7ff && a_fraction != 0;
    let b_nan: bool = b_exponent == 0x7ff && b_fraction != 0;
    let both_zero: bool = a_exponent == 0 && a_fraction == 0 && b_exponent == 0 && b_fraction
        == 0;
    !a_nan && !b_nan && (a == b || both_zero)
}

} // verus!
