use vstd::prelude::*;

use crate::json::Number;

verus! {

/// Two to the power `n`.
pub open spec fn two_pow(n: nat) -> nat
    decreases n,
{
    if n == 0 {
        1
    } else {
        2 * two_pow((n - 1) as nat)
    }
}

/// The exponent field of binary64 bits.
pub open spec fn exp_field(b: u64) -> u64 {
    (b >> 52u64) & 0x7ffu64
}

/// The fraction field of binary64 bits.
pub open spec fn frac_field(b: u64) -> u64 {
    b & 0xf_ffff_ffff_ffffu64
}

/// Whether binary64 bits hold a finite number (not an infinity or a NaN).
pub open spec fn finite_bits(b: u64) -> bool {
    exp_field(b) != 0x7ff
}

/// Whether a JSON number is finite.
pub open spec fn is_finite_number(x: Number) -> bool {
    match x {
        Number::Float(b) => finite_bits(b),
        _ => true,
    }
}

/// The value of a number as sign, magnitude and binary scale: the number is
/// `(-1)^neg * m * 2^k`. A float's fields are read as IEEE 754 prescribes
/// (subnormal where the exponent field is zero).
pub open spec fn dyadic(x: Number) -> (bool, nat, int) {
    match x {
        Number::PosInt(u) => (false, u as nat, 0),
        Number::NegInt(i) => (i < 0, if i < 0 { (-i) as nat } else { i as nat }, 0),
        Number::Float(b) => (
            (b >> 63u64) == 1,
            if exp_field(b) == 0 {
                frac_field(b) as nat
            } else {
                frac_field(b) as nat + two_pow(52)
            },
            if exp_field(b) == 0 {
                -1074
            } else {
                exp_field(b) - 1075
            },
        ),
    }
}

/// `m1 * 2^k1 <= m2 * 2^k2`.
pub open spec fn mag_le(m1: nat, k1: int, m2: nat, k2: int) -> bool {
    if k1 >= k2 {
        m1 * two_pow((k1 - k2) as nat) <= m2
    } else {
        m1 <= m2 * two_pow((k2 - k1) as nat)
    }
}

/// `x <= y`, as numbers.
pub open spec fn num_le(x: Number, y: Number) -> bool {
    let (n1, m1, k1) = dyadic(x);
    let (n2, m2, k2) = dyadic(y);
    if m1 == 0 && m2 == 0 {
        true
    } else if n1 && !n2 {
        true
    } else if !n1 && n2 {
        false
    } else if !n1 {
        mag_le(m1, k1, m2, k2)
    } else {
        mag_le(m2, k2, m1, k1)
    }
}

/// An integer as a JSON number.
pub open spec fn int_number(v: int) -> Number {
    if v >= 0 {
        Number::PosInt(v as u64)
    } else {
        Number::NegInt(v as i64)
    }
}

/// `lo <= x <= hi`.
pub open spec fn in_range(x: Number, lo: int, hi: int) -> bool {
    num_le(int_number(lo), x) && num_le(x, int_number(hi))
}

/// The nearest integer to a non-negative number, halves rounded up (away
/// from zero), as `f64::round` rounds.
pub open spec fn round_nonneg(x: Number) -> int {
    let (n, m, k) = dyadic(x);
    if k >= 0 {
        (m * two_pow(k as nat)) as int
    } else {
        ((2 * m + two_pow((-k) as nat)) / (2 * two_pow((-k) as nat))) as int
    }
}

/// The highest set bit of a positive integer.
pub open spec fn top_bit(n: nat) -> nat
    decreases n,
{
    if n <= 1 {
        0
    } else {
        1 + top_bit(n / 2)
    }
}

/// The binary64 bits of an integer of magnitude below 2^53: zero is +0.0, a
/// negative integer has the sign bit set, and a positive magnitude `n` has
/// exponent field `e + 1023` and fraction `n * 2^(52 - e) - 2^52`, where `e`
/// is its highest set bit.
pub open spec fn float_bits_of_int(v: int) -> int {
    let n: nat = if v < 0 { (-v) as nat } else { v as nat };
    let magnitude: int = if n == 0 {
        0
    } else {
        let e = top_bit(n);
        (e + 1023) * two_pow(52) + n * two_pow((52 - e) as nat) - two_pow(52)
    };
    if v < 0 {
        magnitude + two_pow(63)
    } else {
        magnitude
    }
}

/// A number as the binary64 float that `as_f64` makes of it; for integers
/// of magnitude below 2^53 the conversion is exact.
pub open spec fn as_float(x: Number) -> Number {
    match x {
        Number::Float(b) => x,
        Number::PosInt(u) => Number::Float(float_bits_of_int(u as int) as u64),
        Number::NegInt(i) => Number::Float(float_bits_of_int(i as int) as u64),
    }
}

pub proof fn lemma_two_pow_positive(n: nat)
    ensures
        two_pow(n) >= 1,
    decreases n,
{
    if n > 0 {
        lemma_two_pow_positive((n - 1) as nat);
    }
}

pub proof fn lemma_two_pow_monotonic(a: nat, b: nat)
    requires
        a <= b,
    ensures
        two_pow(a) <= two_pow(b),
    decreases b,
{
    if a < b {
        lemma_two_pow_monotonic(a, (b - 1) as nat);
        lemma_two_pow_positive((b - 1) as nat);
    }
}

pub proof fn lemma_two_pow_values()
    ensures
        two_pow(52) == 0x10_0000_0000_0000,
        two_pow(53) == 0x20_0000_0000_0000,
        two_pow(63) == 0x8000_0000_0000_0000,
        two_pow(64) == 0x1_0000_0000_0000_0000,
        two_pow(65) == 0x2_0000_0000_0000_0000,
{
    reveal_with_fuel(two_pow, 66);
}

/// Two to the power `n`, for `n` up to 65.
fn two_pow_exec(n: u32) -> (r: u128)
    requires
        n <= 65,
    ensures
        r == two_pow(n as nat),
{
    let mut r: u128 = 1;
    let mut i: u32 = 0;
    proof {
        lemma_two_pow_values();
    }
    while i < n
        invariant
            i <= n <= 65,
            r == two_pow(i as nat),
            two_pow(65) == 0x2_0000_0000_0000_0000,
        decreases n - i,
    {
        proof {
            lemma_two_pow_monotonic((i + 1) as nat, 65);
        }
        r = r * 2;
        i = i + 1;
    }
    r
}

/// The sign, magnitude and scale of a finite number.
fn dyadic_exec(x: Number) -> (r: (bool, u64, i64))
    ensures
        dyadic(x) == (r.0, r.1 as nat, r.2 as int),
        -1074 <= r.2 <= 972,
        x is Float ==> r.1 < 0x20_0000_0000_0000,
{
    match x {
        Number::PosInt(u) => (false, u, 0),
        Number::NegInt(i) => {
            if i < 0 {
                let m: u64 = if i == i64::MIN {
                    0x8000_0000_0000_0000u64
                } else {
                    (-i) as u64
                };
                (true, m, 0)
            } else {
                (false, i as u64, 0)
            }
        },
        Number::Float(b) => {
            let e = (b >> 52u64) & 0x7ffu64;
            let f = b & 0xf_ffff_ffff_ffffu64;
            assert(f < 0x10_0000_0000_0000) by (bit_vector)
                requires
                    f == b & 0xf_ffff_ffff_ffffu64,
            ;
            assert(e <= 0x7ff) by (bit_vector)
                requires
                    e == (b >> 52u64) & 0x7ffu64,
            ;
            proof {
                lemma_two_pow_values();
            }
            let neg = (b >> 63u64) == 1;
            if e == 0 {
                (neg, f, -1074)
            } else {
                (neg, f + 0x10_0000_0000_0000u64, (e as i64) - 1075)
            }
        },
    }
}

/// `m1 * 2^k1 <= m2 * 2^k2`, for magnitudes below 2^64.
fn mag_le_exec(m1: u64, k1: i64, m2: u64, k2: i64) -> (r: bool)
    requires
        -2000 <= k1 <= 2000,
        -2000 <= k2 <= 2000,
    ensures
        r == mag_le(m1 as nat, k1 as int, m2 as nat, k2 as int),
{
    proof {
        lemma_two_pow_values();
    }
    if k1 >= k2 {
        let d = k1 - k2;
        if m1 == 0 {
            proof {
                assert(0 * two_pow(d as nat) == 0);
            }
            return true;
        }
        if d >= 65 {
            proof {
                lemma_two_pow_monotonic(65, d as nat);
                assert(m1 * two_pow(d as nat) >= two_pow(d as nat)) by (nonlinear_arith)
                    requires
                        m1 >= 1,
                ;
            }
            return false;
        }
        let p = two_pow_exec(d as u32);
        proof {
            lemma_two_pow_monotonic(d as nat, 64);
            assert((m1 as int) * (p as int) <= 0xffff_ffff_ffff_ffff * 0x1_0000_0000_0000_0000) by (nonlinear_arith)
                requires
                    m1 <= 0xffff_ffff_ffff_ffff,
                    p <= 0x1_0000_0000_0000_0000,
            ;
        }
        (m1 as u128) * p <= (m2 as u128)
    } else {
        let d = k2 - k1;
        if m2 == 0 {
            proof {
                assert(0 * two_pow(d as nat) == 0);
            }
            return m1 == 0;
        }
        if d >= 65 {
            proof {
                lemma_two_pow_monotonic(65, d as nat);
                assert(m2 * two_pow(d as nat) >= two_pow(d as nat)) by (nonlinear_arith)
                    requires
                        m2 >= 1,
                ;
            }
            return true;
        }
        let p = two_pow_exec(d as u32);
        proof {
            lemma_two_pow_monotonic(d as nat, 64);
            assert((m2 as int) * (p as int) <= 0xffff_ffff_ffff_ffff * 0x1_0000_0000_0000_0000) by (nonlinear_arith)
                requires
                    m2 <= 0xffff_ffff_ffff_ffff,
                    p <= 0x1_0000_0000_0000_0000,
            ;
        }
        (m1 as u128) <= (m2 as u128) * p
    }
}

/// Whether a number is finite.
pub fn is_finite(x: Number) -> (r: bool)
    ensures
        r == is_finite_number(x),
{
    match x {
        Number::Float(b) => ((b >> 52u64) & 0x7ffu64) != 0x7ff,
        _ => true,
    }
}

/// `x <= y`, as numbers.
pub fn le(x: Number, y: Number) -> (r: bool)
    ensures
        r == num_le(x, y),
{
    let (n1, m1, k1) = dyadic_exec(x);
    let (n2, m2, k2) = dyadic_exec(y);
    if m1 == 0 && m2 == 0 {
        true
    } else if n1 && !n2 {
        true
    } else if !n1 && n2 {
        false
    } else if !n1 {
        mag_le_exec(m1, k1, m2, k2)
    } else {
        mag_le_exec(m2, k2, m1, k1)
    }
}

/// An integer as a JSON number.
pub fn int_number_exec(v: i64) -> (r: Number)
    ensures
        r == int_number(v as int),
{
    if v >= 0 {
        Number::PosInt(v as u64)
    } else {
        Number::NegInt(v)
    }
}

/// `lo <= x <= hi`.
pub fn in_range_exec(x: Number, lo: i64, hi: i64) -> (r: bool)
    ensures
        r == in_range(x, lo as int, hi as int),
{
    le(int_number_exec(lo), x) && le(x, int_number_exec(hi))
}


proof fn lemma_top_bit_bounds(n: nat)
    requires
        n >= 1,
    ensures
        two_pow(top_bit(n)) <= n < two_pow(top_bit(n) + 1),
    decreases n,
{
    if n > 1 {
        lemma_top_bit_bounds(n / 2);
    }
}

/// The highest set bit of a positive `u64`.
fn top_bit_exec(n: u64) -> (r: u32)
    requires
        n >= 1,
    ensures
        r == top_bit(n as nat),
        r < 64,
    decreases n,
{
    if n <= 1 {
        0
    } else {
        let t = top_bit_exec(n / 2);
        proof {
            lemma_top_bit_bounds(n as nat);
            lemma_two_pow_values();
            if top_bit(n as nat) >= 64 {
                lemma_two_pow_monotonic(64, top_bit(n as nat));
            }
        }
        1 + t
    }
}

/// The nearest integer to a number in `[0, 10000]`, halves rounded up.
pub fn round_exec(x: Number) -> (r: u64)
    requires
        in_range(x, 0, 10000),
    ensures
        r == round_nonneg(x),
        r <= 10000,
{
    proof {
        lemma_two_pow_values();
        reveal_with_fuel(two_pow, 2);
    }
    let (neg, m, k) = dyadic_exec(x);
    if m == 0 {
        proof {
            if k < 0 {
                let j = (-k) as nat;
                lemma_two_pow_positive(j);
                assert((2 * 0 + two_pow(j)) / (2 * two_pow(j)) == 0) by (nonlinear_arith)
                    requires
                        two_pow(j) >= 1,
                ;
            } else {
                assert(0 * two_pow(k as nat) == 0);
            }
        }
        return 0;
    }
    assert(!neg);
    if k >= 0 {
        proof {
            lemma_two_pow_positive(k as nat);
            assert(m * two_pow(k as nat) <= 10000);
            assert(two_pow(k as nat) <= 10000) by (nonlinear_arith)
                requires
                    m >= 1,
                    m * two_pow(k as nat) <= 10000,
            ;
            reveal_with_fuel(two_pow, 15);
            if k >= 14 {
                lemma_two_pow_monotonic(14, k as nat);
            }
        }
        let p = two_pow_exec(k as u32);
        (m as u128 * p) as u64
    } else {
        let j = (-k) as u32;
        if j >= 54 {
            proof {
                lemma_two_pow_monotonic(54, j as nat);
                assert(x is Float);
                let t = two_pow(j as nat);
                assert((2 * (m as nat) + t) / (2 * t) == 0) by (nonlinear_arith)
                    requires
                        m < 0x20_0000_0000_0000,
                        t >= 0x40_0000_0000_0000,
                ;
            }
            return 0;
        }
        proof {
            assert(x is Float);
            lemma_two_pow_monotonic(j as nat, 53);
            lemma_two_pow_positive(j as nat);
            assert(two_pow((j + 1) as nat) == 2 * two_pow(j as nat));
            assert(mag_le(m as nat, k as int, 10000, 0));
            assert(m as nat <= 10000 * two_pow(j as nat));
            assert((2 * (m as nat) + two_pow(j as nat)) / (2 * two_pow(j as nat)) <= 10000) by (nonlinear_arith)
                requires
                    m <= 10000 * two_pow(j as nat),
                    two_pow(j as nat) >= 1,
            ;
        }
        let t = two_pow_exec(j);
        let d = two_pow_exec(j + 1);
        ((2 * (m as u128) + t) / d) as u64
    }
}

proof fn lemma_two_pow_add(a: nat, b: nat)
    ensures
        two_pow(a) * two_pow(b) == two_pow(a + b),
    decreases a,
{
    if a > 0 {
        lemma_two_pow_add((a - 1) as nat, b);
        assert(two_pow(a) * two_pow(b) == 2 * (two_pow((a - 1) as nat) * two_pow(b))) by (nonlinear_arith)
            requires
                two_pow(a) == 2 * two_pow((a - 1) as nat),
        ;
        assert(((a - 1) as nat + b) as nat == (a + b - 1) as nat);
        assert(two_pow(a + b) == 2 * two_pow((a + b - 1) as nat));
    } else {
        assert(1 * two_pow(b) == two_pow(b));
    }
}

/// The binary64 bits of the integer `n` (negated where `neg` holds), for
/// magnitudes below 2^53.
fn float_bits_exec(neg: bool, n: u64) -> (r: u64)
    requires
        n < 0x20_0000_0000_0000,
    ensures
        r as int == float_bits_of_int(if neg { -(n as int) } else { n as int }),
{
    proof {
        lemma_two_pow_values();
    }
    if n == 0 {
        return 0;
    }
    let e = top_bit_exec(n);
    proof {
        lemma_top_bit_bounds(n as nat);
        if e > 52 {
            lemma_two_pow_monotonic(53, e as nat);
        }
        lemma_two_pow_add((e + 1) as nat, (52 - e) as nat);
        lemma_two_pow_values();
        assert((n as nat) * two_pow((52 - e) as nat) < two_pow((e + 1) as nat) * two_pow((52 - e) as nat)) by (nonlinear_arith)
            requires
                (n as nat) < two_pow((e + 1) as nat),
                two_pow((52 - e) as nat) >= 1,
        ;
        lemma_two_pow_positive((52 - e) as nat);
    }
    let p = two_pow_exec(52 - e);
    let mag: u128 = (e as u128 + 1023) * 0x10_0000_0000_0000u128 + (n as u128) * p - 0x10_0000_0000_0000u128;
    if neg {
        (mag + 0x8000_0000_0000_0000u128) as u64
    } else {
        mag as u64
    }
}

/// A number as a binary64 float: a float is kept as it is, and an integer
/// of magnitude below 2^53 is converted exactly.
pub fn to_float(x: Number) -> (r: Number)
    requires
        x is Float || dyadic(x).1 < 0x20_0000_0000_0000,
    ensures
        r == as_float(x),
{
    match x {
        Number::Float(_) => x,
        Number::PosInt(u) => Number::Float(float_bits_exec(false, u)),
        Number::NegInt(i) => {
            if i < 0 {
                Number::Float(float_bits_exec(true, (-(i as i128)) as u64))
            } else {
                Number::Float(float_bits_exec(false, i as u64))
            }
        },
    }
}

/// A number in `[lo, hi]`, with `0 <= lo` and `hi <= hi2`, is in `[0, hi2]`.
pub proof fn lemma_in_range_within(x: Number, lo: int, hi: int, hi2: int)
    requires
        in_range(x, lo, hi),
        0 <= lo,
        0 <= hi <= hi2,
        hi2 <= 0x7fff_ffff_ffff_ffff,
    ensures
        in_range(x, 0, hi2),
{
    reveal_with_fuel(two_pow, 1);
    let (n, m, k) = dyadic(x);
    if !n && m != 0 {
        assert(mag_le(m, k, hi as nat, 0));
        if k >= 0 {
            assert(m * two_pow(k as nat) <= hi2);
        } else {
            let t = two_pow((-k) as nat);
            assert(m <= hi * t);
            assert(hi * t <= hi2 * t) by (nonlinear_arith)
                requires
                    0 <= hi <= hi2,
                    t >= 0,
            ;
        }
        assert(mag_le(0, 0, m, k)) by {
            if 0 >= k {
                assert(0 * two_pow((0 - k) as nat) == 0);
            } else {
                assert(0 <= m * two_pow((k - 0) as nat)) by (nonlinear_arith);
            }
        }
    }
}

/// At one scale, magnitudes compare as integers.
pub proof fn lemma_mag_le_same_scale(m1: nat, m2: nat, k: int)
    ensures
        mag_le(m1, k, m2, k) <==> m1 <= m2,
{
    assert(((k - k) as nat) == 0nat);
    assert(two_pow(0) == 1);
    assert(m1 * 1 == m1);
    assert(m2 * 1 == m2);
}

} // verus!
