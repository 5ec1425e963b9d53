//! Integers read as doubles: the encoding of the double nearest to an
//! integer, as JSON integers become floats.

use vstd::prelude::*;
use vstd::arithmetic::power2::pow2;
use vstd::arithmetic::div_mod::lemma_div_is_ordered;
use crate::json::JsonNumber;
use crate::reals::{P52, SIGN_BIT, bits_finite, bits_frac, bits_mag, lemma_fields, lemma_mag_monotonic};

verus! {

/// `|x - y|`.
pub open spec fn dist(x: int, y: int) -> int {
    if x >= y { x - y } else { y - x }
}

/// The magnitude part of an encoding (the sign bit cleared).
pub open spec fn unsigned_part(b: u64) -> u64 {
    if b >= SIGN_BIT { (b - SIGN_BIT) as u64 } else { b }
}

/// `b` encodes the double nearest to the integer `n`, ties going to the
/// even significand: its sign bit is set exactly when `n` is negative (zero
/// gives +0.0), its magnitude is finite, no finite encoding has a magnitude
/// nearer to `|n|`, and when another is as near, `b`'s significand is even.
/// (Magnitudes are scaled by 2^1074, as [`bits_mag`] gives them.)
pub open spec fn nearest_double(b: u64, n: int) -> bool {
    let a = unsigned_part(b);
    let m = (if n < 0 { -n } else { n }) * pow2(1074);
    &&& (b >= SIGN_BIT) == (n < 0)
    &&& bits_finite(a)
    &&& forall|c: u64| c < SIGN_BIT && bits_finite(c) ==> dist(#[trigger] bits_mag(c) as int, m) >= dist(bits_mag(a) as int, m)
    &&& forall|c: u64|
        c < SIGN_BIT && bits_finite(c) && c != a && dist(#[trigger] bits_mag(c) as int, m) == dist(bits_mag(a) as int, m)
            ==> bits_frac(a) % 2 == 0
}

/// The encoding of the double nearest to the integer `n` (see
/// [`nearest_double`]; there is exactly one, by [`lemma_nearest_unique`]).
pub open spec fn f64_bits_of_int(n: int) -> u64 {
    choose|b: u64| nearest_double(b, n)
}

/// `serde_json::Number::from(n).as_f64()` for an integer JSON number, as an
/// encoding: serde_json converts the integer with `as f64`, which gives the
/// nearest double, ties to even.
#[verifier::external_body]
pub(crate) fn json_int_as_f64_bits(n: &JsonNumber) -> (r: u64)
    requires
        !(*n is Float),
    ensures
        n matches JsonNumber::PosInt(u) ==> nearest_double(r, u as int),
        n matches JsonNumber::NegInt(i) ==> nearest_double(r, i as int),
{
    let num = match n {
        JsonNumber::PosInt(u) => serde_json::Number::from(*u),
        JsonNumber::NegInt(i) => serde_json::Number::from(*i),
        JsonNumber::Float(_) => serde_json::Number::from(0u8),
    };
    num.as_f64().unwrap_or_default().to_bits()
}

/// Among encodings without the sign bit, one below a finite one is finite.
proof fn lemma_below_finite(c: u64, b: u64)
    requires
        c <= b < SIGN_BIT,
        bits_finite(b),
    ensures
        bits_finite(c),
{
    lemma_fields(c);
    lemma_fields(b);
    lemma_div_is_ordered(c as int, b as int, P52 as int);
}

/// Only one encoding is the double nearest to an integer.
pub proof fn lemma_nearest_unique(b1: u64, b2: u64, n: int)
    requires
        nearest_double(b1, n),
        nearest_double(b2, n),
    ensures
        b1 == b2,
{
    let a1 = unsigned_part(b1);
    let a2 = unsigned_part(b2);
    if a1 != a2 {
        if a1 < a2 {
            lemma_nearest_adjacent(a1, a2, n);
        } else {
            lemma_nearest_adjacent(a2, a1, n);
        }
    }
}

/// Of two nearest encodings the lower is the higher: were they different,
/// they would be neighbours, equally near, with significands of both
/// parities.
proof fn lemma_nearest_adjacent(a1: u64, a2: u64, n: int)
    requires
        a1 <= a2 < SIGN_BIT,
        bits_finite(a1),
        bits_finite(a2),
        ({
            let m = (if n < 0 { -n } else { n }) * pow2(1074);
            &&& forall|c: u64| c < SIGN_BIT && bits_finite(c) ==> dist(#[trigger] bits_mag(c) as int, m) >= dist(bits_mag(a1) as int, m)
            &&& forall|c: u64| c < SIGN_BIT && bits_finite(c) ==> dist(#[trigger] bits_mag(c) as int, m) >= dist(bits_mag(a2) as int, m)
            &&& forall|c: u64|
                c < SIGN_BIT && bits_finite(c) && c != a1 && dist(#[trigger] bits_mag(c) as int, m) == dist(bits_mag(a1) as int, m)
                    ==> bits_frac(a1) % 2 == 0
            &&& forall|c: u64|
                c < SIGN_BIT && bits_finite(c) && c != a2 && dist(#[trigger] bits_mag(c) as int, m) == dist(bits_mag(a2) as int, m)
                    ==> bits_frac(a2) % 2 == 0
        }),
    ensures
        a1 == a2,
{
    if a1 == a2 {
        return;
    }
    let m = (if n < 0 { -n } else { n }) * pow2(1074);
    let d1 = dist(bits_mag(a1) as int, m);
    let d2 = dist(bits_mag(a2) as int, m);
    assert(d1 >= d2 && d2 >= d1) by {
        assert(dist(bits_mag(a2) as int, m) >= d1);
        assert(dist(bits_mag(a1) as int, m) >= d2);
    }
    assert(bits_frac(a1) % 2 == 0) by {
        assert(dist(bits_mag(a2) as int, m) == d1);
    }
    assert(bits_frac(a2) % 2 == 0) by {
        assert(dist(bits_mag(a1) as int, m) == d2);
    }
    lemma_mag_monotonic(a1, a2);
    let c = (a1 + 1) as u64;
    if c < a2 {
        lemma_mag_monotonic(a1, c);
        lemma_mag_monotonic(c, a2);
        lemma_below_finite(c, a2);
        assert(dist(bits_mag(c) as int, m) >= d1);
    } else {
        assert(a2 == a1 + 1);
        let f1 = a1 % 0x10_0000_0000_0000u64;
        let f2 = a2 % 0x10_0000_0000_0000u64;
        assert(f1 % 2 == 0 && f2 % 2 == 0 && a2 == a1 + 1 ==> false) by (bit_vector)
            requires
                f1 == a1 % 0x10_0000_0000_0000u64,
                f2 == a2 % 0x10_0000_0000_0000u64,
        ;
        assert(bits_frac(a1) == f1 as nat);
        assert(bits_frac(a2) == f2 as nat);
    }
}

} // verus!
