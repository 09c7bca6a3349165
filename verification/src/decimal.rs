//! Exact decimal numbers for `value` assertions.
//!
//! A captured numeric token is held as a sign, an integer mantissa and a
//! power-of-ten exponent, and tolerance checks compare the exact values
//! `mantissa * 10^exponent`. No rounding happens during a comparison, so a
//! check passes precisely when the captured value lies within the stated
//! bound.

use vstd::arithmetic::mul::{lemma_mul_is_associative, lemma_mul_is_distributive_add_other_way};
use vstd::arithmetic::power::{lemma_pow0, lemma_pow1, lemma_pow_adds, lemma_pow_positive, pow};
use vstd::prelude::*;

verus! {

/// Mantissas stay strictly below this bound (ten to the eighteenth).
pub const MANT_LIMIT: u64 = 1000000000000000000;

/// Exponents stay within this bound in magnitude.
pub const EXP_LIMIT: i64 = 1000000000000;

/// A signed decimal number `mantissa * 10^exp`, negative when `neg` is set.
/// The sign is kept apart from the mantissa so that a negatively signed
/// zero (as in a `-0.0` tolerance) stays distinguishable.
#[derive(Clone, Copy, Debug, PartialEq, Eq, Structural)]
pub struct Dec {
    pub neg: bool,
    pub mant: u64,
    pub exp: i64,
}

pub open spec fn pow10(e: nat) -> int {
    pow(10, e)
}

impl Dec {
    /// Well-formed: the mantissa and exponent are within their bounds.
    pub open spec fn wf(self) -> bool {
        self.mant < MANT_LIMIT && -EXP_LIMIT <= self.exp <= EXP_LIMIT
    }

    /// The mantissa with its sign applied.
    pub open spec fn signed_mant(self) -> int {
        if self.neg {
            -(self.mant as int)
        } else {
            self.mant as int
        }
    }

    /// The zero value with a positive sign.
    pub fn zero() -> (r: Dec)
        ensures
            r.wf(),
            r.signed_mant() == 0,
            !r.neg,
            r.exp == 0,
    {
        Dec { neg: false, mant: 0, exp: 0 }
    }

    /// Builds a well-formed decimal, in executable code.
    pub fn new(neg: bool, mant: u64, exp: i64) -> (r: Dec)
        requires
            mant < MANT_LIMIT,
            -EXP_LIMIT <= exp <= EXP_LIMIT,
        ensures
            r.wf(),
            r == (Dec { neg, mant, exp }),
    {
        Dec { neg, mant, exp }
    }
}

/// The integer value of the term `m * 10^e`, rescaled to the base
/// exponent `base`; meaningful when `base <= e`.
pub open spec fn term(m: int, e: int, base: int) -> int {
    m * pow10((e - base) as nat)
}

pub open spec fn min3(a: int, b: int, c: int) -> int {
    if a <= b && a <= c {
        a
    } else if b <= c {
        b
    } else {
        c
    }
}

/// The comparison `a <= b + c` over the exact values `mant * 10^exp`,
/// written with every term rescaled to the smallest exponent so that it
/// reads as a plain integer inequality.
pub open spec fn le_sum(a: Dec, b: Dec, c: Dec) -> bool {
    let base = min3(a.exp as int, b.exp as int, c.exp as int);
    term(a.signed_mant(), a.exp as int, base) <= term(b.signed_mant(), b.exp as int, base) + term(
        c.signed_mant(),
        c.exp as int,
        base,
    )
}

/// The value of `a` lies within `b - c .. b + c` (for a non-negative `c`).
pub open spec fn within_eps(a: Dec, b: Dec, c: Dec) -> bool {
    le_sum(a, b, c) && le_sum(b, a, c)
}

/// Concrete powers of ten that the bounds below lean on.
proof fn lemma_pow10_bounds()
    ensures
        pow10(18) == 0xde0b6b3a7640000,
        pow10(19) == 0x8ac7230489e80000,
        pow10(20) == 0x56bc75e2d63100000,
        pow10(36) == 0xc097ce7bc90715b34b9f1000000000,
        pow10(37) == 0x785ee10d5da46d900f436a000000000,
{
    assert(pow10(18) == 0xde0b6b3a7640000 && pow10(19) == 0x8ac7230489e80000 && pow10(20)
        == 0x56bc75e2d63100000 && pow10(36) == 0xc097ce7bc90715b34b9f1000000000 && pow10(37)
        == 0x785ee10d5da46d900f436a000000000) by {
        reveal_with_fuel(vstd::arithmetic::power::pow, 40);
    }
}

proof fn lemma_pow10_pos(e: nat)
    ensures
        pow10(e) >= 1,
{
    lemma_pow_positive(10, e);
}

proof fn lemma_pow10_mono(a: nat, b: nat)
    requires
        a <= b,
    ensures
        pow10(a) <= pow10(b),
{
    lemma_pow_adds(10, a, (b - a) as nat);
    lemma_pow10_pos(a);
    lemma_pow10_pos((b - a) as nat);
    let x = pow10(a);
    let y = pow10((b - a) as nat);
    assert(x <= x * y) by (nonlinear_arith)
        requires
            x >= 1,
            y >= 1,
    ;
}

/// `10^d`, for exponent gaps small enough to fit.
fn pow10_i128(d: u64) -> (r: i128)
    requires
        d <= 37,
    ensures
        r == pow10(d as nat),
        r >= 1,
{
    let mut r: i128 = 1;
    let mut i: u64 = 0;
    proof {
        lemma_pow0(10);
    }
    while i < d
        invariant
            i <= d <= 37,
            r == pow10(i as nat),
            1 <= r,
        decreases d - i,
    {
        proof {
            lemma_pow10_bounds();
            lemma_pow10_mono(i as nat, 36);
            assert(pow10((i + 1) as nat) == 10 * pow10(i as nat)) by {
                lemma_pow_adds(10, 1, i as nat);
                lemma_pow1(10);
            }
        }
        r = r * 10;
        i += 1;
    }
    r
}

/// Whether `m1*10^(e1-e3) + m2*10^(e2-e3) + m3 >= 0`, for exponents sorted
/// downward. Works by collapsing adjacent terms exactly while the exponent
/// gap is small, and by order-of-magnitude dominance where it is large.
fn tsum_ge0(m1: i128, e1: i64, m2: i128, e2: i64, m3: i128, e3: i64) -> (r: bool)
    requires
        e3 <= e2 <= e1,
        -EXP_LIMIT <= e3,
        e1 <= EXP_LIMIT,
        -(MANT_LIMIT as i128) < m1 < MANT_LIMIT as i128,
        -(MANT_LIMIT as i128) < m2 < MANT_LIMIT as i128,
        -(MANT_LIMIT as i128) < m3 < MANT_LIMIT as i128,
    ensures
        r == (term(m1 as int, e1 as int, e3 as int) + term(m2 as int, e2 as int, e3 as int) + m3
            >= 0),
{
    proof {
        lemma_pow10_bounds();
    }
    let ghost t1 = term(m1 as int, e1 as int, e3 as int);
    let ghost t2 = term(m2 as int, e2 as int, e3 as int);
    let d12 = e1 - e2;
    let d23 = e2 - e3;
    if m1 == 0 {
        // the first term vanishes; fall through to the remaining two
        proof {
            assert(t1 == 0) by (nonlinear_arith)
                requires
                    t1 == 0int * pow10((e1 - e3) as nat),
            ;
        }
        if m2 == 0 {
            proof {
                assert(t2 == 0) by (nonlinear_arith)
                    requires
                        t2 == 0int * pow10((e2 - e3) as nat),
                ;
            }
            m3 >= 0
        } else if d23 >= 19 {
            // |m3| < 10^18 < 10^19 <= |m2 * 10^d23|
            proof {
                lemma_pow10_mono(19, d23 as nat);
                let p = pow10(d23 as nat);
                assert((m2 as int * p + m3 >= 0) == (m2 > 0)) by (nonlinear_arith)
                    requires
                        p >= 0x8ac7230489e80000,
                        m2 != 0,
                        -(MANT_LIMIT as i128) < m2 < MANT_LIMIT as i128,
                        -(MANT_LIMIT as i128) < m3 < MANT_LIMIT as i128,
                        MANT_LIMIT == 1000000000000000000u64,
                ;
            }
            m2 > 0
        } else {
            let q = pow10_i128(d23 as u64);
            proof {
                lemma_pow10_mono(d23 as nat, 18);
                assert(-(0xc097ce7bc90715b34b9f1000000000 as i128) < m2 * q < (
                0xc097ce7bc90715b34b9f1000000000 as i128)) by (nonlinear_arith)
                    requires
                        -(MANT_LIMIT as i128) < m2 < MANT_LIMIT as i128,
                        MANT_LIMIT == 1000000000000000000u64,
                        1 <= q <= 0xde0b6b3a7640000,
                ;
            }
            m2 * q + m3 >= 0
        }
    } else if d12 >= 20 {
        // the first term dwarfs the other two together
        proof {
            let d13 = (e1 - e3) as nat;
            lemma_pow10_mono(((d23 + 20) as int) as nat, d13);
            lemma_pow_adds(10, 20, d23 as nat);
            lemma_pow10_pos(d23 as nat);
            let p13 = pow10(d13);
            let p23 = pow10(d23 as nat);
            assert((m1 as int * p13 + m2 as int * p23 + m3 >= 0) == (m1 > 0)) by (nonlinear_arith)
                requires
                    p23 >= 1,
                    p13 >= 0x56bc75e2d63100000 * p23,
                    m1 != 0,
                    -(MANT_LIMIT as i128) < m1 < MANT_LIMIT as i128,
                    -(MANT_LIMIT as i128) < m2 < MANT_LIMIT as i128,
                    -(MANT_LIMIT as i128) < m3 < MANT_LIMIT as i128,
                    MANT_LIMIT == 1000000000000000000u64,
            ;
        }
        m1 > 0
    } else {
        let p = pow10_i128(d12 as u64);
        proof {
            lemma_pow10_mono(d12 as nat, 19);
            assert(-(0x785ee10d5da46d900f436a000000000 as i128) < m1 * p < (
            0x785ee10d5da46d900f436a000000000 as i128)) by (nonlinear_arith)
                requires
                    -(MANT_LIMIT as i128) < m1 < MANT_LIMIT as i128,
                    MANT_LIMIT == 1000000000000000000u64,
                    1 <= p <= 0x8ac7230489e80000,
            ;
        }
        let u = m1 * p + m2;
        proof {
            // t1 + t2 == u * 10^d23
            lemma_pow_adds(10, d12 as nat, d23 as nat);
            lemma_mul_is_associative(m1 as int, pow10(d12 as nat), pow10(d23 as nat));
            lemma_mul_is_distributive_add_other_way(
                pow10(d23 as nat),
                m1 as int * pow10(d12 as nat),
                m2 as int,
            );
            assert(t1 + t2 == (u as int) * pow10(d23 as nat));
        }
        if u == 0 {
            proof {
                assert((0int) * pow10(d23 as nat) == 0) by (nonlinear_arith);
            }
            m3 >= 0
        } else if u >= 10000000000000000000 || u <= -10000000000000000000 || d23 >= 19 {
            // |u * 10^d23| >= 10^19 > |m3|
            proof {
                lemma_pow10_pos(d23 as nat);
                let pq = pow10(d23 as nat);
                if d23 >= 19 {
                    lemma_pow10_mono(19, d23 as nat);
                }
                assert((u as int * pq + m3 >= 0) == (u > 0)) by (nonlinear_arith)
                    requires
                        pq >= 1,
                        u != 0,
                        u >= 10000000000000000000 || u <= -10000000000000000000 || pq
                            >= 0x8ac7230489e80000,
                        -(MANT_LIMIT as i128) < m3 < MANT_LIMIT as i128,
                        MANT_LIMIT == 1000000000000000000u64,
                ;
            }
            u > 0
        } else {
            let q = pow10_i128(d23 as u64);
            proof {
                lemma_pow10_mono(d23 as nat, 18);
                assert(-(0x785ee10d5da46d900f436a000000000 as i128) < u * q < (
                0x785ee10d5da46d900f436a000000000 as i128)) by (nonlinear_arith)
                    requires
                        -10000000000000000000 < u < 10000000000000000000i128,
                        1 <= q <= 0xde0b6b3a7640000,
                ;
            }
            u * q + m3 >= 0
        }
    }
}

/// Decides `a <= b + c` over the exact decimal values.
pub fn dec_le_sum(a: Dec, b: Dec, c: Dec) -> (r: bool)
    requires
        a.wf(),
        b.wf(),
        c.wf(),
    ensures
        r == le_sum(a, b, c),
{
    let ta: i128 = if a.neg {
        -(a.mant as i128)
    } else {
        a.mant as i128
    };
    let tb: i128 = if b.neg {
        -(b.mant as i128)
    } else {
        b.mant as i128
    };
    let tc: i128 = if c.neg {
        -(c.mant as i128)
    } else {
        c.mant as i128
    };
    // the sign test below decides b + c - a >= 0
    let na = -ta;
    let ghost base = min3(a.exp as int, b.exp as int, c.exp as int);
    // sort the three terms by exponent, largest first
    let (q1, f1, q2, f2) = if b.exp >= c.exp {
        (tb, b.exp, tc, c.exp)
    } else {
        (tc, c.exp, tb, b.exp)
    };
    let (s1, g1, s2, g2, s3, g3) = if a.exp >= f1 {
        (na, a.exp, q1, f1, q2, f2)
    } else if a.exp >= f2 {
        (q1, f1, na, a.exp, q2, f2)
    } else {
        (q1, f1, q2, f2, na, a.exp)
    };
    let r = tsum_ge0(s1, g1, s2, g2, s3, g3);
    proof {
        assert(g3 == base);
        assert(pow10(0) == 1) by {
            lemma_pow0(10);
        }
        assert(term(s3 as int, g3 as int, base) == s3 as int);
        assert(term(na as int, a.exp as int, base) == -term(ta as int, a.exp as int, base)) by {
            assert((-(ta as int)) * pow10((a.exp as int - base) as nat) == -((ta as int) * pow10(
                (a.exp as int - base) as nat,
            ))) by (nonlinear_arith);
        }
    }
    r
}

/// Decides whether `a` lies within `b - c .. b + c`.
pub fn dec_within(a: Dec, b: Dec, c: Dec) -> (r: bool)
    requires
        a.wf(),
        b.wf(),
        c.wf(),
    ensures
        r == within_eps(a, b, c),
{
    let le1 = dec_le_sum(a, b, c);
    let le2 = dec_le_sum(b, a, c);
    le1 && le2
}

} // verus!
