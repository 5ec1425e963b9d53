//! Real numbers as the editor stores them: IEEE-754 binary64 encodings, plus
//! the exact ratios `n / 255` that hex colours produce. The predicates below
//! are the float comparisons the tools make, decided on the encoding.

use vstd::prelude::*;
use vstd::arithmetic::power2::*;
use vstd::arithmetic::mul::*;
use vstd::arithmetic::div_mod::*;
use vstd::bits::*;
use crate::json::JsonNumber;

verus! {

/// 2^52: the weight of the lowest exponent bit.
pub const P52: u64 = 0x10_0000_0000_0000;
/// 2^63: the sign bit.
pub const SIGN_BIT: u64 = 0x8000_0000_0000_0000;
/// Encoding of 1.0.
pub const ONE_BITS: u64 = 0x3FF0_0000_0000_0000;
/// Encoding of 0.5.
pub const HALF_BITS: u64 = 0x3FE0_0000_0000_0000;
/// Encoding of 96.0.
pub const NINETY_SIX_BITS: u64 = 0x4058_0000_0000_0000;

/// A real value: an IEEE-754 binary64 encoding, or the double nearest to
/// `n / 255` (how a hex colour byte becomes a channel value).
#[derive(Clone, Copy)]
pub enum Real {
    Bits(u64),
    Ratio255(u8),
}

/// Biased exponent field.
pub open spec fn bits_exp(b: u64) -> nat {
    ((b as nat / P52 as nat) % 2048) as nat
}

/// Fraction field.
pub open spec fn bits_frac(b: u64) -> nat {
    (b as nat % P52 as nat) as nat
}

pub open spec fn bits_neg(b: u64) -> bool {
    b >= SIGN_BIT
}

pub open spec fn bits_nan(b: u64) -> bool {
    bits_exp(b) == 2047 && bits_frac(b) != 0
}

pub open spec fn bits_finite(b: u64) -> bool {
    bits_exp(b) != 2047
}

/// Magnitude of the encoded value, scaled by 2^1074 so that it is an
/// integer (infinity is larger than every finite magnitude).
pub open spec fn bits_mag(b: u64) -> nat {
    if bits_exp(b) == 0 {
        bits_frac(b)
    } else {
        ((P52 as nat + bits_frac(b)) * pow2((bits_exp(b) - 1) as nat)) as nat
    }
}

proof fn lemma_p52()
    ensures
        pow2(52) == P52,
        pow2(63) == SIGN_BIT,
{
    lemma2_to64();
    lemma2_to64_rest();
}

/// For encodings without the sign bit: field decomposition.
pub(crate) proof fn lemma_fields(b: u64)
    requires
        b < SIGN_BIT,
    ensures
        b as nat == P52 as nat * bits_exp(b) + bits_frac(b),
        bits_exp(b) == b as nat / P52 as nat,
        bits_exp(b) < 2048,
        bits_frac(b) < P52,
{
    lemma_fundamental_div_mod(b as int, P52 as int);
    assert(b as nat / P52 as nat <= 2047) by {
        lemma_div_is_ordered(b as int, (SIGN_BIT - 1) as int, P52 as int);
        assert((SIGN_BIT - 1) as int / P52 as int == 2047) ;
    }
}

/// mag(b) < 2^52 * 2^exp(b).
proof fn lemma_mag_upper(b: u64)
    requires
        b < SIGN_BIT,
    ensures
        bits_mag(b) < P52 as nat * pow2(bits_exp(b)),
{
    lemma_fields(b);
    lemma_p52();
    let e = bits_exp(b);
    let f = bits_frac(b);
    if e == 0 {
        lemma2_to64();
    } else {
        lemma_pow2_unfold(e);
        let p = pow2((e - 1) as nat);
        lemma_pow2_pos((e - 1) as nat);
        assert((P52 as nat + f) * p < (2 * P52 as nat) * p) by {
            lemma_mul_strict_inequality((P52 as nat + f) as int, (2 * P52 as nat) as int, p as int);
        }
        assert((2 * P52 as nat) * p == P52 as nat * (2 * p)) by {
            lemma_mul_is_associative(2, P52 as int, p as int);
            lemma_mul_is_associative(P52 as int, 2, p as int);
        }
    }
}

/// mag(b) >= 2^52 * 2^(exp(b) - 1) when exp(b) > 0.
proof fn lemma_mag_lower(b: u64)
    requires
        b < SIGN_BIT,
        bits_exp(b) > 0,
    ensures
        bits_mag(b) >= P52 as nat * pow2((bits_exp(b) - 1) as nat),
{
    lemma_fields(b);
    let p = pow2((bits_exp(b) - 1) as nat);
    lemma_mul_inequality(P52 as int, (P52 as nat + bits_frac(b)) as int, p as int);
}

/// Among encodings without the sign bit, the magnitude grows strictly with
/// the encoding.
pub proof fn lemma_mag_monotonic(b1: u64, b2: u64)
    requires
        b1 < b2 < SIGN_BIT,
    ensures
        bits_mag(b1) < bits_mag(b2),
{
    lemma_fields(b1);
    lemma_fields(b2);
    let e1 = bits_exp(b1);
    let e2 = bits_exp(b2);
    if e1 == e2 {
        assert(bits_frac(b1) < bits_frac(b2));
        if e1 != 0 {
            lemma_pow2_pos((e1 - 1) as nat);
            lemma_mul_strict_inequality(
                (P52 as nat + bits_frac(b1)) as int,
                (P52 as nat + bits_frac(b2)) as int,
                pow2((e1 - 1) as nat) as int,
            );
        }
    } else {
        assert(e1 < e2) by {
            if e1 > e2 {
                assert(P52 as nat * e1 >= P52 as nat * (e2 + 1)) by {
                    lemma_mul_inequality((e2 + 1) as int, e1 as int, P52 as int);
                }
            }
        }
        lemma_mag_upper(b1);
        lemma_mag_lower(b2);
        if e1 < (e2 - 1) as nat {
            lemma_pow2_strictly_increases(e1, (e2 - 1) as nat);
        }
        lemma_mul_inequality(pow2(e1) as int, pow2((e2 - 1) as nat) as int, P52 as int);
    }
}

proof fn lemma_one_mag()
    ensures
        bits_exp(ONE_BITS) == 1023,
        bits_frac(ONE_BITS) == 0,
        bits_mag(ONE_BITS) == pow2(1074),
        bits_exp(HALF_BITS) == 1022,
        bits_mag(HALF_BITS) == pow2(1073),
{
    lemma_fields(ONE_BITS);
    lemma_fields(HALF_BITS);
    lemma_p52();
    lemma_pow2_adds(52, 1022);
    lemma_pow2_adds(52, 1021);
}


/// The exponent and fraction fields do not see the sign bit.
proof fn lemma_sign_split(b: u64)
    ensures
        bits_exp(b) == bits_exp((b % SIGN_BIT) as u64),
        bits_frac(b) == bits_frac((b % SIGN_BIT) as u64),
        (b % SIGN_BIT) < SIGN_BIT,
{
    assert((b / 0x10_0000_0000_0000u64) % 2048 == ((b % 0x8000_0000_0000_0000u64) / 0x10_0000_0000_0000u64) % 2048)
        by (bit_vector);
    assert(b % 0x10_0000_0000_0000u64 == (b % 0x8000_0000_0000_0000u64) % 0x10_0000_0000_0000u64)
        by (bit_vector);
}

/// Truncation of a non-negative encoding `m` with exponent at least 1023
/// and below 1086: `(2^52 + frac) * 2^(exp - 1075)` read as an integer.
proof fn lemma_trunc_quotient(m: u64, q: nat)
    requires
        m < SIGN_BIT,
        1023 <= bits_exp(m) < 1086,
        bits_exp(m) >= 1075 ==> q == (P52 as nat + bits_frac(m)) * pow2((bits_exp(m) - 1075) as nat),
        bits_exp(m) < 1075 ==> q == (P52 as nat + bits_frac(m)) / pow2((1075 - bits_exp(m)) as nat),
    ensures
        bits_mag(m) / pow2(1074) == q,
{
    let e = bits_exp(m);
    let mant = (P52 as nat + bits_frac(m)) as nat;
    assert(bits_mag(m) == mant * pow2((e - 1) as nat));
    lemma_pow2_pos(1074);
    if e >= 1075 {
        lemma_pow2_adds(1074, (e - 1075) as nat);
        assert(((e - 1075) as nat + 1074) as nat == (e - 1) as nat);
        assert(mant * pow2((e - 1) as nat) == (mant * pow2((e - 1075) as nat)) * pow2(1074)) by {
            lemma_mul_is_associative(mant as int, pow2((e - 1075) as nat) as int, pow2(1074) as int);
            lemma_mul_is_commutative(pow2((e - 1075) as nat) as int, pow2(1074) as int);
        }
        lemma_div_by_multiple((mant * pow2((e - 1075) as nat)) as int, pow2(1074) as int);
    } else {
        lemma_pow2_adds((e - 1) as nat, (1075 - e) as nat);
        assert(((e - 1) as nat + (1075 - e) as nat) as nat == 1074nat);
        lemma_pow2_pos((e - 1) as nat);
        lemma_pow2_pos((1075 - e) as nat);
        lemma_div_multiples_vanish_quotient(pow2((e - 1) as nat) as int, mant as int, pow2((1075 - e) as nat) as int);
        lemma_mul_is_commutative(mant as int, pow2((e - 1) as nat) as int);
    }
}

impl Real {
    pub open spec fn spec_is_nan(self) -> bool {
        match self {
            Real::Bits(b) => bits_nan(b),
            Real::Ratio255(_) => false,
        }
    }

    pub open spec fn spec_is_finite(self) -> bool {
        match self {
            Real::Bits(b) => bits_finite(b),
            Real::Ratio255(_) => true,
        }
    }

    /// `self > 0.0`.
    pub open spec fn spec_gt_zero(self) -> bool {
        match self {
            Real::Bits(b) => !bits_nan(b) && !bits_neg(b) && bits_mag(b) > 0,
            Real::Ratio255(n) => n > 0,
        }
    }

    /// `self < 0.0`.
    pub open spec fn spec_lt_zero(self) -> bool {
        match self {
            Real::Bits(b) => !bits_nan(b) && bits_neg(b) && bits_mag((b - SIGN_BIT) as u64) > 0,
            Real::Ratio255(_) => false,
        }
    }

    /// `self > 1.0`.
    pub open spec fn spec_gt_one(self) -> bool {
        match self {
            Real::Bits(b) => !bits_nan(b) && !bits_neg(b) && bits_mag(b) > bits_mag(ONE_BITS),
            Real::Ratio255(_) => false,
        }
    }

    /// `self == 1.0`.
    pub open spec fn spec_eq_one(self) -> bool {
        match self {
            Real::Bits(b) => !bits_nan(b) && !bits_neg(b) && bits_mag(b) == bits_mag(ONE_BITS),
            Real::Ratio255(n) => n == 255,
        }
    }

    /// `self == 0.5`.
    pub open spec fn spec_eq_half(self) -> bool {
        match self {
            Real::Bits(b) => !bits_nan(b) && !bits_neg(b) && bits_mag(b) == bits_mag(HALF_BITS),
            Real::Ratio255(_) => false,
        }
    }

    /// `self == 0.0` (either sign of zero).
    pub open spec fn spec_eq_zero(self) -> bool {
        match self {
            Real::Bits(b) => !bits_nan(b) && bits_mag((b % SIGN_BIT) as u64) == 0,
            Real::Ratio255(n) => n == 0,
        }
    }

    /// `self.clamp(0.0, 1.0)`.
    pub open spec fn spec_clamp_unit(self) -> Real {
        if self.spec_lt_zero() {
            Real::Bits(0)
        } else if self.spec_gt_one() {
            Real::Bits(ONE_BITS)
        } else {
            self
        }
    }

    /// `self as i64`: truncation toward zero, saturating, NaN to 0.
    pub open spec fn spec_trunc_i64(self) -> i64 {
        match self {
            Real::Bits(b) => if bits_nan(b) {
                0
            } else {
                let q = bits_mag((b % SIGN_BIT) as u64) / pow2(1074);
                if !bits_neg(b) {
                    if q > i64::MAX { i64::MAX } else { q as i64 }
                } else {
                    if q >= 0x8000_0000_0000_0000 { i64::MIN } else { (-q) as i64 }
                }
            },
            Real::Ratio255(n) => if n == 255 { 1 } else { 0 },
        }
    }

    pub fn zero() -> (r: Real)
        ensures
            r == Real::Bits(0),
    {
        Real::Bits(0)
    }

    pub fn one() -> (r: Real)
        ensures
            r == Real::Bits(ONE_BITS),
    {
        Real::Bits(ONE_BITS)
    }

    pub fn half() -> (r: Real)
        ensures
            r == Real::Bits(HALF_BITS),
    {
        Real::Bits(HALF_BITS)
    }

    pub fn is_nan(&self) -> (r: bool)
        ensures
            r == self.spec_is_nan(),
    {
        match self {
            Real::Bits(b) => (*b / P52) % 2048 == 2047 && *b % P52 != 0,
            Real::Ratio255(_) => false,
        }
    }

    pub fn is_finite(&self) -> (r: bool)
        ensures
            r == self.spec_is_finite(),
    {
        match self {
            Real::Bits(b) => (*b / P52) % 2048 != 2047,
            Real::Ratio255(_) => true,
        }
    }

    pub fn gt_zero(&self) -> (r: bool)
        ensures
            r == self.spec_gt_zero(),
    {
        match self {
            Real::Bits(b) => {
                if *b >= SIGN_BIT || self.is_nan() {
                    false
                } else {
                    proof {
                        if *b > 0 {
                            lemma_mag_monotonic(0, *b);
                        }
                    }
                    *b > 0
                }
            },
            Real::Ratio255(n) => *n > 0,
        }
    }

    pub fn lt_zero(&self) -> (r: bool)
        ensures
            r == self.spec_lt_zero(),
    {
        match self {
            Real::Bits(b) => {
                if *b < SIGN_BIT || self.is_nan() {
                    false
                } else {
                    let m = *b - SIGN_BIT;
                    proof {
                        if m > 0 {
                            lemma_mag_monotonic(0, m);
                        }
                    }
                    m > 0
                }
            },
            Real::Ratio255(_) => false,
        }
    }

    pub fn gt_one(&self) -> (r: bool)
        ensures
            r == self.spec_gt_one(),
    {
        match self {
            Real::Bits(b) => {
                if *b >= SIGN_BIT || self.is_nan() {
                    false
                } else {
                    proof {
                        if *b > ONE_BITS {
                            lemma_mag_monotonic(ONE_BITS, *b);
                        } else if *b < ONE_BITS {
                            lemma_mag_monotonic(*b, ONE_BITS);
                        }
                    }
                    *b > ONE_BITS
                }
            },
            Real::Ratio255(_) => false,
        }
    }

    pub fn eq_one(&self) -> (r: bool)
        ensures
            r == self.spec_eq_one(),
    {
        match self {
            Real::Bits(b) => {
                proof {
                    if *b < SIGN_BIT {
                        if *b > ONE_BITS {
                            lemma_mag_monotonic(ONE_BITS, *b);
                        } else if *b < ONE_BITS {
                            lemma_mag_monotonic(*b, ONE_BITS);
                        }
                    }
                    lemma_one_mag();
                }
                *b == ONE_BITS
            },
            Real::Ratio255(n) => *n == 255,
        }
    }

    pub fn eq_half(&self) -> (r: bool)
        ensures
            r == self.spec_eq_half(),
    {
        match self {
            Real::Bits(b) => {
                proof {
                    if *b < SIGN_BIT {
                        if *b > HALF_BITS {
                            lemma_mag_monotonic(HALF_BITS, *b);
                        } else if *b < HALF_BITS {
                            lemma_mag_monotonic(*b, HALF_BITS);
                        }
                    }
                    lemma_one_mag();
                }
                *b == HALF_BITS
            },
            Real::Ratio255(_) => false,
        }
    }

    pub fn eq_zero(&self) -> (r: bool)
        ensures
            r == self.spec_eq_zero(),
    {
        match self {
            Real::Bits(b) => {
                let m = *b % SIGN_BIT;
                proof {
                    if m > 0 {
                        lemma_mag_monotonic(0, m);
                    }
                    lemma_fields(m);
                }
                m == 0
            },
            Real::Ratio255(n) => *n == 0,
        }
    }

    pub fn trunc_i64(&self) -> (r: i64)
        ensures
            r == self.spec_trunc_i64(),
    {
        match self {
            Real::Bits(b) => {
                let neg = *b >= SIGN_BIT;
                let m = *b % SIGN_BIT;
                let e = m / P52;
                let f = m % P52;
                proof {
                    lemma_sign_split(*b);
                    lemma_fields(m);
                    lemma_pow2_pos(1074);
                }
                if e == 2047 && f != 0 {
                    return 0;
                }
                if e < 1023 {
                    proof {
                        lemma_mag_upper(m);
                        lemma_p52();
                        if e < 1022 {
                            lemma_pow2_strictly_increases(e as nat, 1022);
                        }
                        lemma_mul_inequality(pow2(e as nat) as int, pow2(1022) as int, P52 as int);
                        lemma_pow2_adds(52, 1022);
                        assert(bits_mag(m) < pow2(1074));
                        vstd::arithmetic::div_mod::lemma_basic_div(bits_mag(m) as int, pow2(1074) as int);
                    }
                    return 0;
                }
                let k = e - 1023;
                if k >= 63 {
                    proof {
                        lemma_mag_lower(m);
                        lemma_p52();
                        lemma_pow2_adds(52, (e - 1) as nat);
                        lemma_pow2_adds(1074, 63);
                        if (1137 as nat) < (52 + e - 1) as nat {
                            lemma_pow2_strictly_increases(1137, (52 + e - 1) as nat);
                        }
                        lemma_div_is_ordered(pow2(1137) as int, bits_mag(m) as int, pow2(1074) as int);
                        lemma_div_by_multiple(pow2(63) as int, pow2(1074) as int);
                        lemma_mul_is_commutative(pow2(63) as int, pow2(1074) as int);
                    }
                    return if neg { i64::MIN } else { i64::MAX };
                }
                let mant: u64 = P52 + f;
                let q: u64 = if k >= 52 {
                    let sh = k - 52;
                    proof {
                        lemma_p52();
                        lemma2_to64();
                        lemma2_to64_rest();
                        lemma_pow2_adds(53, sh as nat);
                        if (sh as nat) < 10 {
                            lemma_pow2_strictly_increases(sh as nat, 10);
                        }
                        lemma2_to64();
                        lemma_mul_inequality(mant as int, pow2(53) as int, pow2(sh as nat) as int);
                        lemma_mul_inequality(pow2(sh as nat) as int, pow2(10) as int, pow2(53) as int);
                        lemma_pow2_adds(53, 10);
                        lemma2_to64_rest();
                        lemma_u64_shl_is_mul(mant, sh);
                        lemma_mul_is_commutative(pow2(53) as int, pow2(sh as nat) as int);
                    }
                    mant << sh
                } else {
                    let sh = 52 - k;
                    proof {
                        lemma_u64_shr_is_div(mant, sh);
                        lemma_pow2_pos(sh as nat);
                        lemma_div_is_ordered_by_denominator(mant as int, 1, pow2(sh as nat) as int);
                        assert(mant as int / 1 == mant as int);
                    }
                    mant >> sh
                };
                proof {
                    lemma_trunc_quotient(m, q as nat);
                    lemma_p52();
                    lemma2_to64_rest();
                }
                if neg {
                    -(q as i64)
                } else {
                    q as i64
                }
            },
            Real::Ratio255(n) => if *n == 255 { 1 } else { 0 },
        }
    }

    pub fn clamp_unit(&self) -> (r: Real)
        ensures
            r == self.spec_clamp_unit(),
    {
        if self.lt_zero() {
            Real::zero()
        } else if self.gt_one() {
            Real::one()
        } else {
            *self
        }
    }
}

} // verus!
