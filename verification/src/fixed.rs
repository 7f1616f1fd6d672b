//! Fixed-point arithmetic for the simulation.
//!
//! A coordinate is an `i64` counting units of `2^-20`; angles are radians in
//! the same scale.

use vstd::prelude::*;
use vstd::arithmetic::power2::{pow2, lemma2_to64, lemma_pow2_strictly_increases, lemma_pow2_unfold};

verus! {

/// The fixed-point representation of `1.0`: twenty fractional bits.
pub const ONE: i64 = 1_048_576;

/// A third of a half turn (sixty degrees) in fixed-point radians.
pub const PI_THIRD: i64 = 1_098_066;

/// A sixth of a half turn (thirty degrees) in fixed-point radians.
pub const PI_SIXTH: i64 = 549_033;

/// `v` limited to the interval `[lo, hi]`.
pub open spec fn spec_clamp(v: int, lo: int, hi: int) -> int {
    if v < lo {
        lo
    } else if v > hi {
        hi
    } else {
        v
    }
}

/// The magnitude of `v`.
pub open spec fn spec_abs(v: int) -> int {
    if v < 0 {
        -v
    } else {
        v
    }
}

/// The sign of `v` as `1` or `-1`; zero counts as positive.
pub open spec fn spec_sign(v: int) -> int {
    if v < 0 {
        -1
    } else {
        1
    }
}

/// The quotient `a / b` rounded toward zero, for a positive divisor.
pub open spec fn spec_div_trunc(a: int, b: int) -> int {
    if a >= 0 {
        a / b
    } else {
        -((-a) / b)
    }
}

/// The product of two non-negative fixed-point numbers, rounded down.
pub open spec fn spec_fmul(a: int, b: int) -> int {
    (a * b) / (ONE as int)
}

/// Cosine of a fixed-point angle of at most sixty degrees either way: the
/// eighth-order Taylor polynomial in nested form, kept within `[ONE / 2, ONE]`.
pub open spec fn spec_cos(a: int) -> int {
    let a2 = spec_fmul(a, a);
    let u4 = ONE - a2 / 56;
    let u3 = ONE - spec_fmul(a2, u4) / 30;
    let u2 = ONE - spec_fmul(a2, u3) / 12;
    let u1 = ONE - spec_fmul(a2, u2) / 2;
    spec_clamp(u1, ONE / 2, ONE as int)
}

/// Sine of a fixed-point angle of at most sixty degrees either way: the
/// seventh-order Taylor polynomial in nested form, odd in its argument and
/// kept within `[-ONE, ONE]`.
pub open spec fn spec_sin(a: int) -> int {
    let m = spec_abs(a);
    let a2 = spec_fmul(m, m);
    let t3 = ONE - a2 / 42;
    let t2 = ONE - spec_fmul(a2, t3) / 20;
    let t1 = ONE - spec_fmul(a2, t2) / 6;
    let s = spec_clamp(spec_fmul(m, t1), 0, ONE as int);
    if a < 0 {
        -s
    } else {
        s
    }
}

/// The significand `m` is doubled, and the biased exponent `e` lowered, until
/// bit 23 of `m` is set; the result packs exponent and fraction as an IEEE-754
/// single does.
pub open spec fn spec_pack_single(m: int, e: int) -> int
    decreases
        (if m >= 8_388_608 {
            0
        } else {
            8_388_608 - m
        }),
{
    if m <= 0 || m >= 8_388_608 {
        e * 8_388_608 + (m - 8_388_608)
    } else {
        spec_pack_single(2 * m, e - 1)
    }
}

/// The bit pattern of the IEEE-754 single that equals `v / ONE` exactly, for
/// `0 <= v < 2^24`.
pub open spec fn spec_single_bits(v: int) -> int {
    if v == 0 {
        0
    } else {
        spec_pack_single(v, 130)
    }
}

/// How many doublings bring the significand `m` into normal form.
pub open spec fn spec_shift(m: int) -> nat
    decreases
        (if m >= 8_388_608 {
            0
        } else {
            8_388_608 - m
        }),
{
    if m <= 0 || m >= 8_388_608 {
        0
    } else {
        1 + spec_shift(2 * m)
    }
}

/// Whether `bits` is the pattern of the IEEE-754 single that equals
/// `v / ONE`.
///
/// A single with sign bit clear, biased exponent `E` and fraction `F`, that
/// is the pattern `E * 2^23 + F`, stands for `(2^23 + F) * 2^(E - 150)`.
/// With `E = 130 - s` and `2^23 + F = v * 2^s` that is `v / 2^20`. Zero is
/// the pattern of all bits clear.
pub open spec fn spec_single_equals(bits: int, v: int) -> bool {
    if v == 0 {
        bits == 0
    } else {
        exists|s: nat|
            #![trigger pow2(s)]
            s <= 23 && 8_388_608 <= v * pow2(s) < 16_777_216 && bits == (130 - s) * 8_388_608 + (v
                * pow2(s) - 8_388_608)
    }
}

proof fn lemma_pack_single(m: int, e: int)
    requires
        1 <= m < 16_777_216,
    ensures
        spec_pack_single(m, e) == (e - spec_shift(m)) * 8_388_608 + (m * pow2(spec_shift(m))
            - 8_388_608),
        8_388_608 <= m * pow2(spec_shift(m)) < 16_777_216,
    decreases
        (if m >= 8_388_608 {
            0
        } else {
            8_388_608 - m
        }),
{
    lemma2_to64();
    if m < 8_388_608 {
        lemma_pack_single(2 * m, e - 1);
        let s = spec_shift(2 * m);
        lemma_pow2_unfold(s + 1);
        assert(m * pow2(s + 1) == (2 * m) * pow2(s)) by (nonlinear_arith)
            requires
                pow2(s + 1) == 2 * pow2(s),
        ;
    } else {
        assert(m * pow2(0) == m);
    }
}

/// The bit pattern that [`to_single_bits`] gives for a coordinate is that of
/// the single which equals the coordinate exactly: nothing is rounded.
pub proof fn lemma_single_bits_exact(v: int)
    requires
        0 <= v < 16_777_216,
    ensures
        spec_single_equals(spec_single_bits(v), v),
{
    if v > 0 {
        lemma_pack_single(v, 130);
        let s = spec_shift(v);
        lemma2_to64();
        if s >= 24 {
            if s > 24 {
                lemma_pow2_strictly_increases(24, s);
            }
            assert(v * pow2(s) >= pow2(s)) by (nonlinear_arith)
                requires
                    v >= 1,
                    pow2(s) >= 0,
            ;
        }
        assert(8_388_608 <= v * pow2(s) < 16_777_216);
    }
}

/// `v` limited to the interval `[lo, hi]`.
pub fn clamp(v: i64, lo: i64, hi: i64) -> (r: i64)
    requires
        lo <= hi,
    ensures
        r == spec_clamp(v as int, lo as int, hi as int),
{
    if v < lo {
        lo
    } else if v > hi {
        hi
    } else {
        v
    }
}

/// The magnitude of `v`.
pub fn abs(v: i64) -> (r: i64)
    requires
        v > i64::MIN,
    ensures
        r == spec_abs(v as int),
{
    if v < 0 {
        -v
    } else {
        v
    }
}

/// The quotient `a / b` rounded toward zero.
pub fn div_trunc(a: i64, b: i64) -> (r: i64)
    requires
        b > 0,
        a > i64::MIN,
    ensures
        r == spec_div_trunc(a as int, b as int),
{
    if a >= 0 {
        a / b
    } else {
        -((-a) / b)
    }
}

/// The product of two non-negative fixed-point numbers below `2 * ONE`.
pub fn fmul(a: i64, b: i64) -> (r: i64)
    requires
        0 <= a <= 2 * ONE,
        0 <= b <= 2 * ONE,
    ensures
        r == spec_fmul(a as int, b as int),
        0 <= r <= 4 * ONE,
        b <= ONE ==> r <= a,
        a <= ONE ==> r <= b,
{
    proof {
        lemma_fmul_bounds(a as int, b as int);
    }
    (a * b) / ONE
}

/// Bounds on a fixed-point product of two numbers in `[0, 2 * ONE]`.
pub proof fn lemma_fmul_bounds(a: int, b: int)
    requires
        0 <= a <= 2 * ONE,
        0 <= b <= 2 * ONE,
    ensures
        0 <= a * b <= 4 * ONE * ONE,
        0 <= spec_fmul(a, b) <= 4 * ONE,
        b <= ONE ==> spec_fmul(a, b) <= a,
        a <= ONE ==> spec_fmul(a, b) <= b,
{
    assert(0 <= a * b <= 4 * ONE * ONE) by (nonlinear_arith)
        requires
            0 <= a <= 2 * ONE,
            0 <= b <= 2 * ONE,
    ;
    if b <= ONE {
        assert(a * b <= a * ONE) by (nonlinear_arith)
            requires
                0 <= a,
                0 <= b <= ONE,
        ;
    }
    if a <= ONE {
        assert(a * b <= b * ONE) by (nonlinear_arith)
            requires
                0 <= b,
                0 <= a <= ONE,
        ;
    }
}

/// Bounds on the square of an angle of at most sixty degrees.
pub proof fn lemma_angle_square(m: int)
    requires
        0 <= m <= PI_THIRD,
    ensures
        0 <= spec_fmul(m, m) <= 1_149_901,
{
    assert(0 <= m * m <= PI_THIRD * PI_THIRD) by (nonlinear_arith)
        requires
            0 <= m <= PI_THIRD,
    ;
}

/// Cosine of a fixed-point angle.
pub fn cos(a: i64) -> (r: i64)
    requires
        -PI_THIRD <= a <= PI_THIRD,
    ensures
        r == spec_cos(a as int),
        ONE / 2 <= r <= ONE,
{
    let m: i64 = abs(a);
    proof {
        lemma_angle_square(m as int);
        assert(a * a == m * m) by (nonlinear_arith)
            requires
                m == a || m == -a,
        ;
    }
    let a2: i64 = fmul(m, m);
    let u4: i64 = ONE - a2 / 56;
    let w4: i64 = fmul(a2, u4);
    let u3: i64 = ONE - w4 / 30;
    let w3: i64 = fmul(a2, u3);
    let u2: i64 = ONE - w3 / 12;
    let w2: i64 = fmul(a2, u2);
    let u1: i64 = ONE - w2 / 2;
    clamp(u1, ONE / 2, ONE)
}

/// Sine of a fixed-point angle.
pub fn sin(a: i64) -> (r: i64)
    requires
        -PI_THIRD <= a <= PI_THIRD,
    ensures
        r == spec_sin(a as int),
        -ONE <= r <= ONE,
        a >= 0 ==> r >= 0,
        a <= 0 ==> r <= 0,
{
    let m: i64 = abs(a);
    proof {
        lemma_angle_square(m as int);
    }
    let a2: i64 = fmul(m, m);
    let t3: i64 = ONE - a2 / 42;
    let w3: i64 = fmul(a2, t3);
    let t2: i64 = ONE - w3 / 20;
    let w2: i64 = fmul(a2, t2);
    let t1: i64 = ONE - w2 / 6;
    let s: i64 = clamp(fmul(m, t1), 0, ONE);
    if a < 0 {
        -s
    } else {
        s
    }
}

/// Whether `r` is the integer square root of `n`: the largest number whose
/// square is at most `n`.
pub open spec fn spec_is_root(n: int, r: int) -> bool {
    0 <= r && r * r <= n < (r + 1) * (r + 1)
}

/// The largest `r` with `r * r <= n`.
pub open spec fn spec_isqrt(n: int) -> int {
    choose|r: int| #[trigger] spec_is_root(n, r)
}

/// Only one number is the integer square root of `n`.
pub proof fn lemma_isqrt_unique(n: int, r: int)
    requires
        0 <= r,
        r * r <= n < (r + 1) * (r + 1),
    ensures
        spec_isqrt(n) == r,
{
    let s = spec_isqrt(n);
    assert(spec_is_root(n, r));
    assert(spec_is_root(n, s));
    assert(s == r) by (nonlinear_arith)
        requires
            0 <= r,
            r * r <= n < (r + 1) * (r + 1),
            0 <= s,
            s * s <= n < (s + 1) * (s + 1),
    ;
}

/// Every non-negative number has an integer square root.
pub proof fn lemma_isqrt_exists(n: int)
    requires
        0 <= n,
    ensures
        0 <= spec_isqrt(n),
        spec_isqrt(n) * spec_isqrt(n) <= n < (spec_isqrt(n) + 1) * (spec_isqrt(n) + 1),
    decreases n,
{
    if n == 0 {
        lemma_isqrt_unique(0, 0);
    } else {
        lemma_isqrt_exists(n - 1);
        let r = spec_isqrt(n - 1);
        if (r + 1) * (r + 1) <= n {
            assert(n < (r + 2) * (r + 2)) by (nonlinear_arith)
                requires
                    n - 1 < (r + 1) * (r + 1),
                    0 <= r,
            ;
            lemma_isqrt_unique(n, r + 1);
        } else {
            lemma_isqrt_unique(n, r);
        }
    }
}

/// The sine of any angle lies in `[-ONE, ONE]` and has the angle's sign; the
/// cosine lies in `[ONE / 2, ONE]`.
pub proof fn lemma_trig_bounds(a: int)
    ensures
        -ONE <= spec_sin(a) <= ONE,
        a >= 0 ==> spec_sin(a) >= 0,
        a <= 0 ==> spec_sin(a) <= 0,
        ONE / 2 <= spec_cos(a) <= ONE,
{
    if a == 0 {
        let t1 = ONE - spec_fmul(0, ONE - spec_fmul(0, ONE - 0) / 20) / 6;
        assert(0 * t1 == 0) by (nonlinear_arith);
        assert(0int * 0int == 0);
    }
}

/// The sine of an angle of at most sixty degrees either way is no larger in
/// magnitude than the angle.
pub proof fn lemma_sin_at_most_angle(a: int)
    requires
        -PI_THIRD <= a <= PI_THIRD,
    ensures
        spec_abs(spec_sin(a)) <= spec_abs(a),
{
    let m = spec_abs(a);
    lemma_angle_square(m);
    let a2 = spec_fmul(m, m);
    let t3 = ONE - a2 / 42;
    lemma_fmul_bounds(a2, t3);
    let t2 = ONE - spec_fmul(a2, t3) / 20;
    lemma_fmul_bounds(a2, t2);
    let t1 = ONE - spec_fmul(a2, t2) / 6;
    lemma_fmul_bounds(m, t1);
}

/// The largest `r` with `r * r <= n`.
pub fn isqrt(n: u64) -> (r: u64)
    ensures
        r * r <= n < (r + 1) * (r + 1),
        r == spec_isqrt(n as int),
{
    let mut lo: u64 = 0;
    let mut hi: u64 = 4_294_967_296;
    while hi - lo > 1
        invariant
            lo < hi <= 4_294_967_296,
            lo * lo <= n < hi * hi,
        decreases hi - lo,
    {
        let mid: u64 = lo + (hi - lo) / 2;
        assert(mid * mid <= 4_294_967_295 * 4_294_967_295) by (nonlinear_arith)
            requires
                0 <= mid <= 4_294_967_295,
        ;
        if mid * mid <= n {
            lo = mid;
        } else {
            hi = mid;
        }
    }
    proof {
        lemma_isqrt_unique(n as int, lo as int);
    }
    lo
}

/// The bit pattern of the IEEE-754 single that equals `v / ONE` exactly.
pub fn to_single_bits(v: i64) -> (bits: u32)
    requires
        0 <= v < 16_777_216,
    ensures
        bits == spec_single_bits(v as int),
        spec_single_equals(bits as int, v as int),
{
    proof {
        lemma_single_bits_exact(v as int);
    }
    if v == 0 {
        return 0;
    }
    let mut m: i64 = v;
    let mut e: i64 = 130;
    while m < 8_388_608
        invariant
            1 <= m < 16_777_216,
            e <= 130,
            m >= spec_weight(e as int),
            spec_pack_single(m as int, e as int) == spec_pack_single(v as int, 130),
        decreases
            (if m >= 8_388_608 {
                0
            } else {
                8_388_608 - m
            }),
    {
        proof {
            lemma_weight(e as int, 24);
        }
        m = m * 2;
        e = e - 1;
    }
    proof {
        lemma_weight(e as int, 24);
    }
    (e * 8_388_608 + (m - 8_388_608)) as u32
}

/// The least significand that can stand beside the biased exponent `e`
/// while a positive number is brought into normal form.
spec fn spec_weight(e: int) -> int
    decreases 130 - e,
{
    if e >= 130 {
        1
    } else {
        2 * spec_weight(e + 1)
    }
}

proof fn lemma_weight(e: int, k: nat)
    ensures
        spec_weight(e) >= 1,
        e + k <= 130 ==> spec_weight(e) >= pow2(k),
        pow2(24) == 16_777_216,
    decreases 130 - e,
{
    lemma2_to64();
    if e < 130 {
        lemma_weight(e + 1, 0);
        if k > 0 {
            lemma_weight(e + 1, (k - 1) as nat);
            lemma_pow2_unfold(k);
        }
    } else {
        if k == 0 {
            lemma_pow2_unfold(1);
        }
    }
}

} // verus!
