//! Parsing of numeric tokens into decimal values.
//!
//! A token is an optionally signed decimal with an optional fraction and an
//! optional exponent: `[-+]?` digits, or digits `.` digits, then optionally
//! `e`/`E`, an optional sign and digits. The first eighteen significant
//! mantissa digits are kept exactly; further digits only shift the exponent,
//! and exponents of absurd magnitude saturate at the representable bound.

use crate::decimal::{Dec, EXP_LIMIT, MANT_LIMIT};
use vstd::prelude::*;

verus! {

pub open spec fn is_digit(b: u8) -> bool {
    48 <= b && b <= 57
}

pub open spec fn all_digits(s: Seq<u8>) -> bool {
    forall|i: int| 0 <= i < s.len() ==> is_digit(#[trigger] s[i])
}

/// The numeric value of a digit string, most significant digit first.
pub open spec fn digits_val(s: Seq<u8>) -> int
    decreases s.len(),
{
    if s.len() == 0 {
        0
    } else {
        digits_val(s.drop_last()) * 10 + (s.last() - 48)
    }
}

/// The first position at or after `i` that does not hold a digit.
pub open spec fn digit_run_end(s: Seq<u8>, i: int) -> int
    decreases s.len() - i,
{
    if i < 0 || i >= s.len() {
        i
    } else if is_digit(s[i]) {
        digit_run_end(s, i + 1)
    } else {
        i
    }
}

/// Length of the leading `+`/`-` sign, zero or one.
pub open spec fn sign_len(t: Seq<u8>) -> int {
    if t.len() > 0 && (t[0] == 43 || t[0] == 45) {
        1
    } else {
        0
    }
}

/// The token denotes a negative number.
pub open spec fn tok_neg(t: Seq<u8>) -> bool {
    t.len() > 0 && t[0] == 45
}

/// End of the run of integer digits.
pub open spec fn int_end(t: Seq<u8>) -> int {
    digit_run_end(t, sign_len(t))
}

/// A decimal point follows the integer digits.
pub open spec fn has_dot(t: Seq<u8>) -> bool {
    int_end(t) < t.len() && t[int_end(t)] == 46
}

/// End of the run of fraction digits (or of the integer digits when no
/// decimal point is present).
pub open spec fn frac_end(t: Seq<u8>) -> int {
    if has_dot(t) {
        digit_run_end(t, int_end(t) + 1)
    } else {
        int_end(t)
    }
}

/// The mantissa holds at least one digit, after the dot when one is there.
pub open spec fn mant_ok(t: Seq<u8>) -> bool {
    if has_dot(t) {
        frac_end(t) >= int_end(t) + 2
    } else {
        int_end(t) > sign_len(t)
    }
}

/// An exponent marker follows the mantissa.
pub open spec fn has_e(t: Seq<u8>) -> bool {
    mant_ok(t) && frac_end(t) < t.len() && (t[frac_end(t)] == 101 || t[frac_end(t)] == 69)
}

/// Length of the exponent's own sign, zero or one.
pub open spec fn esign_len(t: Seq<u8>) -> int {
    if has_e(t) && frac_end(t) + 1 < t.len() && (t[frac_end(t) + 1] == 43 || t[frac_end(t) + 1]
        == 45) {
        1
    } else {
        0
    }
}

pub open spec fn exp_start(t: Seq<u8>) -> int {
    frac_end(t) + 1 + esign_len(t)
}

pub open spec fn exp_end(t: Seq<u8>) -> int {
    digit_run_end(t, exp_start(t))
}

/// The whole token is a well-formed signed decimal with an optional
/// exponent, with nothing left over.
pub open spec fn wf_numeric(t: Seq<u8>) -> bool {
    mant_ok(t) && if has_e(t) {
        exp_end(t) > exp_start(t) && exp_end(t) == t.len()
    } else {
        frac_end(t) == t.len()
    }
}

/// All mantissa digits, the integer part then the fraction part.
pub open spec fn mant_digits(t: Seq<u8>) -> Seq<u8> {
    t.subrange(sign_len(t), int_end(t)) + if has_dot(t) {
        t.subrange(int_end(t) + 1, frac_end(t))
    } else {
        Seq::<u8>::empty()
    }
}

/// How many digits stand after the decimal point.
pub open spec fn frac_len(t: Seq<u8>) -> int {
    if has_dot(t) {
        frac_end(t) - int_end(t) - 1
    } else {
        0
    }
}

pub open spec fn exp_digits(t: Seq<u8>) -> Seq<u8> {
    if has_e(t) {
        t.subrange(exp_start(t), exp_end(t))
    } else {
        Seq::<u8>::empty()
    }
}

pub open spec fn exp_negative(t: Seq<u8>) -> bool {
    has_e(t) && esign_len(t) == 1 && t[frac_end(t) + 1] == 45
}

/// The exact exponent the token denotes: the written exponent, shifted left
/// by the number of fraction digits.
pub open spec fn spec_exp_val(t: Seq<u8>) -> int {
    (if exp_negative(t) {
        -digits_val(exp_digits(t))
    } else {
        digits_val(exp_digits(t))
    }) - frac_len(t)
}

/// Tokens in this range parse exactly: the mantissa fits the kept digits
/// and the exponent is far from the saturation bound.
pub open spec fn exact_range(t: Seq<u8>) -> bool {
    t.len() <= 1000000000 && digits_val(mant_digits(t)) < 100000000000000000 && digits_val(
        exp_digits(t),
    ) < 10000000000
}

/// The mantissa accumulator: digits fold in while the running value stays
/// below the kept-digit cap; later digits are dropped.
pub open spec fn acc_mant(s: Seq<u8>) -> int
    decreases s.len(),
{
    if s.len() == 0 {
        0
    } else {
        let p = acc_mant(s.drop_last());
        if p < 100000000000000000 {
            p * 10 + (s.last() - 48)
        } else {
            p
        }
    }
}

/// How many integer digits were dropped by the cap (each shifts the
/// exponent up by one); itself saturating far out of range.
pub open spec fn acc_drop(s: Seq<u8>) -> int
    decreases s.len(),
{
    if s.len() == 0 {
        0
    } else {
        let p = acc_mant(s.drop_last());
        let q = acc_drop(s.drop_last());
        if p < 100000000000000000 {
            q
        } else if q < 10000000000000 {
            q + 1
        } else {
            q
        }
    }
}

/// How many fraction digits were kept in the mantissa (each shifts the
/// exponent down by one), given the integer digits that came first.
pub open spec fn acc_kept(intd: Seq<u8>, fr: Seq<u8>) -> int
    decreases fr.len(),
{
    if fr.len() == 0 {
        0
    } else {
        let p = acc_mant(intd + fr.drop_last());
        acc_kept(intd, fr.drop_last()) + if p < 100000000000000000 {
            1int
        } else {
            0int
        }
    }
}

/// The exponent accumulator, saturating far out of range.
pub open spec fn acc_exp(s: Seq<u8>) -> int
    decreases s.len(),
{
    if s.len() == 0 {
        0
    } else {
        let p = acc_exp(s.drop_last());
        if p < 10000000000 {
            p * 10 + (s.last() - 48)
        } else {
            p
        }
    }
}

/// The integer digits of the token.
pub open spec fn int_digits(t: Seq<u8>) -> Seq<u8> {
    t.subrange(sign_len(t), int_end(t))
}

/// The fraction digits of the token.
pub open spec fn frac_digits(t: Seq<u8>) -> Seq<u8> {
    if has_dot(t) {
        t.subrange(int_end(t) + 1, frac_end(t))
    } else {
        Seq::<u8>::empty()
    }
}

/// What parsing a token yields: `None` on an ill-formed token, else the
/// sign, the capped mantissa, and the exponent — the written exponent,
/// shifted by dropped integer digits and kept fraction digits, saturated
/// at the representable bound.
pub open spec fn spec_parse_dec(t: Seq<u8>) -> Option<Dec> {
    if !wf_numeric(t) {
        None
    } else {
        let m = acc_mant(int_digits(t) + frac_digits(t));
        let drops = acc_drop(int_digits(t));
        let kept = acc_kept(int_digits(t), frac_digits(t));
        let fl = if kept > 1000000000000 {
            1000000000000int
        } else {
            kept
        };
        let e0 = (if exp_negative(t) {
            -acc_exp(exp_digits(t))
        } else {
            acc_exp(exp_digits(t))
        }) + drops - fl;
        let e = if e0 > EXP_LIMIT {
            EXP_LIMIT as int
        } else if e0 < -EXP_LIMIT {
            -EXP_LIMIT as int
        } else {
            e0
        };
        Some(Dec { neg: tok_neg(t), mant: m as u64, exp: e as i64 })
    }
}

proof fn lemma_digits_val_nonneg(s: Seq<u8>)
    requires
        all_digits(s),
    ensures
        digits_val(s) >= 0,
    decreases s.len(),
{
    if s.len() > 0 {
        assert(all_digits(s.drop_last()));
        lemma_digits_val_nonneg(s.drop_last());
    }
}

proof fn lemma_digits_val_push(s: Seq<u8>, d: u8)
    ensures
        digits_val(s.push(d)) == digits_val(s) * 10 + (d - 48),
{
    assert(s.push(d).drop_last() =~= s);
    assert(s.push(d).last() == d);
}

/// Bounds of the digit run: everything before the end is a digit, and the
/// end is the token's end or a non-digit.
proof fn lemma_digit_run(s: Seq<u8>, i: int)
    requires
        0 <= i <= s.len(),
    ensures
        i <= digit_run_end(s, i) <= s.len(),
        forall|k: int| i <= k < digit_run_end(s, i) ==> is_digit(#[trigger] s[k]),
        digit_run_end(s, i) < s.len() ==> !is_digit(s[digit_run_end(s, i)]),
    decreases s.len() - i,
{
    if i < s.len() && is_digit(s[i]) {
        lemma_digit_run(s, i + 1);
    }
}

/// A digit at the scan position pushes the run end past it.
proof fn lemma_digit_run_step(s: Seq<u8>, i: int)
    requires
        0 <= i < s.len(),
        is_digit(s[i]),
    ensures
        digit_run_end(s, i) == digit_run_end(s, i + 1),
{
}

/// A non-digit (or the end) stops the run.
proof fn lemma_digit_run_stop(s: Seq<u8>, i: int)
    requires
        0 <= i <= s.len(),
        i == s.len() || !is_digit(s[i]),
    ensures
        digit_run_end(s, i) == i,
{
}

/// A digit-string prefix never exceeds the whole in value.
proof fn lemma_digits_val_prefix(a: Seq<u8>, b: Seq<u8>)
    requires
        all_digits(a + b),
    ensures
        digits_val(a) <= digits_val(a + b),
    decreases b.len(),
{
    if b.len() == 0 {
        assert(a + b =~= a);
    } else {
        assert((a + b).drop_last() =~= a + b.drop_last());
        assert(all_digits(a + b.drop_last()));
        lemma_digits_val_prefix(a, b.drop_last());
        lemma_digits_val_nonneg(a + b.drop_last());
        assert(is_digit((a + b).last()));
    }
}

/// Below the cap the mantissa accumulator is exact and drops nothing.
proof fn lemma_acc_exact(s: Seq<u8>)
    requires
        all_digits(s),
        digits_val(s) < 100000000000000000,
    ensures
        acc_mant(s) == digits_val(s),
        acc_drop(s) == 0,
    decreases s.len(),
{
    if s.len() > 0 {
        assert(all_digits(s.drop_last()));
        assert(s.drop_last() + seq![s.last()] =~= s);
        lemma_digits_val_prefix(s.drop_last(), seq![s.last()]);
        lemma_digits_val_nonneg(s.drop_last());
        lemma_acc_exact(s.drop_last());
    }
}

/// Below the cap every fraction digit is kept.
proof fn lemma_acc_kept_exact(intd: Seq<u8>, fr: Seq<u8>)
    requires
        all_digits(intd + fr),
        digits_val(intd + fr) < 100000000000000000,
    ensures
        acc_kept(intd, fr) == fr.len(),
    decreases fr.len(),
{
    if fr.len() > 0 {
        assert(intd + fr.drop_last() =~= (intd + fr).drop_last());
        assert(all_digits(intd + fr.drop_last()));
        assert((intd + fr.drop_last()) + seq![fr.last()] =~= intd + fr);
        lemma_digits_val_prefix(intd + fr.drop_last(), seq![fr.last()]);
        lemma_acc_kept_exact(intd, fr.drop_last());
        assert(all_digits(intd + fr.drop_last()));
        lemma_acc_exact(intd + fr.drop_last());
    }
}

/// Below its cap the exponent accumulator is exact.
proof fn lemma_acc_exp_exact(s: Seq<u8>)
    requires
        all_digits(s),
        digits_val(s) < 10000000000,
    ensures
        acc_exp(s) == digits_val(s),
    decreases s.len(),
{
    if s.len() > 0 {
        assert(all_digits(s.drop_last()));
        assert(s.drop_last() + seq![s.last()] =~= s);
        lemma_digits_val_prefix(s.drop_last(), seq![s.last()]);
        lemma_digits_val_nonneg(s.drop_last());
        lemma_acc_exp_exact(s.drop_last());
    }
}

/// The accumulated mantissa stays below the representable bound.
proof fn lemma_acc_mant_bounds(s: Seq<u8>)
    requires
        all_digits(s),
    ensures
        0 <= acc_mant(s) < MANT_LIMIT,
        0 <= acc_drop(s) <= 10000000000000,
    decreases s.len(),
{
    if s.len() > 0 {
        assert(all_digits(s.drop_last()));
        lemma_acc_mant_bounds(s.drop_last());
    }
}

/// Parses a numeric token into a decimal. Succeeds exactly on well-formed
/// tokens; within `exact_range` the result is the token's exact value.
#[verifier::rlimit(100)]
pub fn parse_dec(t: &[u8]) -> (r: Option<Dec>)
    ensures
        r == spec_parse_dec(t@),
        r.is_some() == wf_numeric(t@),
        r.is_some() ==> r.unwrap().wf(),
        r.is_some() ==> r.unwrap().neg == tok_neg(t@),
        wf_numeric(t@) && exact_range(t@) ==> {
            &&& r.unwrap().mant == digits_val(mant_digits(t@))
            &&& r.unwrap().exp == spec_exp_val(t@)
        },
{
    let n = t.len();
    let mut i: usize = 0;
    let mut neg = false;
    if n > 0 && (t[0] == 43 || t[0] == 45) {
        neg = t[0] == 45;
        i = 1;
    }
    assert(i == sign_len(t@));
    assert(neg == tok_neg(t@));
    // integer digits
    let mut mant: u64 = 0;
    let mut intdrop: u64 = 0;
    let mstart = i;
    proof {
        lemma_digit_run(t@, i as int);
        assert(t@.subrange(mstart as int, mstart as int) =~= Seq::<u8>::empty());
    }
    while i < n && 48 <= t[i] && t[i] <= 57
        invariant
            mstart <= i <= n == t@.len(),
            digit_run_end(t@, mstart as int) == digit_run_end(t@, i as int),
            forall|k: int| mstart <= k < i ==> is_digit(#[trigger] t@[k]),
            mant == acc_mant(t@.subrange(mstart as int, i as int)),
            intdrop == acc_drop(t@.subrange(mstart as int, i as int)),
            mant < MANT_LIMIT,
            intdrop <= 10000000000000,
        decreases n - i,
    {
        proof {
            lemma_digit_run_step(t@, i as int);
            let pre = t@.subrange(mstart as int, i as int);
            assert(t@.subrange(mstart as int, i + 1) =~= pre.push(t@[i as int]));
            assert(pre.push(t@[i as int]).drop_last() =~= pre);
        }
        let d = t[i] - 48;
        if mant < 100000000000000000 {
            mant = mant * 10 + d as u64;
        } else if intdrop < 10000000000000 {
            intdrop += 1;
        }
        i += 1;
    }
    proof {
        lemma_digit_run_stop(t@, i as int);
        assert(i as int == int_end(t@));
    }
    let iend = i;
    let ghost intdigs = t@.subrange(mstart as int, iend as int);
    assert(intdigs == int_digits(t@));
    // fraction digits
    let mut have_dot = false;
    let mut fracdigs: u64 = 0;
    let mut frackept: u64 = 0;
    if i < n && t[i] == 46 {
        have_dot = true;
        i += 1;
        let fstart = i;
        proof {
            lemma_digit_run(t@, i as int);
            assert(t@.subrange(fstart as int, fstart as int) =~= Seq::<u8>::empty());
            assert(intdigs + t@.subrange(fstart as int, fstart as int) =~= intdigs);
        }
        while i < n && 48 <= t[i] && t[i] <= 57
            invariant
                fstart <= i <= n == t@.len(),
                fstart == iend + 1 <= n,
                mstart <= iend,
                intdigs == t@.subrange(mstart as int, iend as int),
                forall|k: int| mstart <= k < iend ==> is_digit(#[trigger] t@[k]),
                digit_run_end(t@, fstart as int) == digit_run_end(t@, i as int),
                forall|k: int| fstart <= k < i ==> is_digit(#[trigger] t@[k]),
                mant == acc_mant(intdigs + t@.subrange(fstart as int, i as int)),
                frackept == acc_kept(intdigs, t@.subrange(fstart as int, i as int)),
                intdrop == acc_drop(intdigs),
                mant < MANT_LIMIT,
                intdrop <= 10000000000000,
                fracdigs == i - fstart,
                frackept <= fracdigs,
            decreases n - i,
        {
            proof {
                lemma_digit_run_step(t@, i as int);
                let sub = t@.subrange(fstart as int, i as int);
                let sub1 = t@.subrange(fstart as int, i + 1);
                assert(sub1 =~= sub.push(t@[i as int]));
                assert(sub1.drop_last() =~= sub);
                assert(intdigs + sub1 =~= (intdigs + sub).push(t@[i as int]));
                assert((intdigs + sub).push(t@[i as int]).drop_last() =~= intdigs + sub);
            }
            let d = t[i] - 48;
            if mant < 100000000000000000 {
                mant = mant * 10 + d as u64;
                frackept += 1;
            }
            fracdigs += 1;
            i += 1;
        }
        proof {
            lemma_digit_run_stop(t@, i as int);
            assert(has_dot(t@));
            assert(i as int == frac_end(t@));
        }
        if fracdigs == 0 {
            assert(!mant_ok(t@));
            return None;
        }
    } else {
        proof {
            assert(!has_dot(t@));
            assert(i as int == frac_end(t@));
            assert(intdigs + Seq::<u8>::empty() =~= intdigs);
        }
        if i == mstart {
            assert(!mant_ok(t@));
            return None;
        }
    }
    assert(mant_ok(t@));
    assert(i as int == frac_end(t@));
    proof {
        if has_dot(t@) {
            assert(frac_digits(t@) =~= t@.subrange(iend + 1, i as int));
        }
        assert(mant == acc_mant(int_digits(t@) + frac_digits(t@)));
        assert(frackept == acc_kept(int_digits(t@), frac_digits(t@)));
    }
    // exponent
    let mut eneg = false;
    let mut eval: u64 = 0;
    if i < n && (t[i] == 101 || t[i] == 69) {
        assert(has_e(t@));
        i += 1;
        if i < n && (t[i] == 43 || t[i] == 45) {
            eneg = t[i] == 45;
            i += 1;
        }
        assert(i as int == exp_start(t@));
        assert(eneg == exp_negative(t@));
        let estart = i;
        proof {
            lemma_digit_run(t@, i as int);
            assert(t@.subrange(estart as int, estart as int) =~= Seq::<u8>::empty());
        }
        while i < n && 48 <= t[i] && t[i] <= 57
            invariant
                estart <= i <= n == t@.len(),
                digit_run_end(t@, estart as int) == digit_run_end(t@, i as int),
                forall|k: int| estart <= k < i ==> is_digit(#[trigger] t@[k]),
                eval == acc_exp(t@.subrange(estart as int, i as int)),
                eval < 100000000000,
            decreases n - i,
        {
            proof {
                lemma_digit_run_step(t@, i as int);
                let pre = t@.subrange(estart as int, i as int);
                assert(t@.subrange(estart as int, i + 1) =~= pre.push(t@[i as int]));
                assert(pre.push(t@[i as int]).drop_last() =~= pre);
            }
            let d = t[i] - 48;
            if eval < 10000000000 {
                eval = eval * 10 + d as u64;
            }
            i += 1;
        }
        proof {
            lemma_digit_run_stop(t@, i as int);
            assert(i as int == exp_end(t@));
        }
        if i == estart {
            assert(!wf_numeric(t@));
            return None;
        }
        if i != n {
            assert(!wf_numeric(t@));
            return None;
        }
        assert(wf_numeric(t@));
        assert(exp_digits(t@) =~= t@.subrange(estart as int, i as int));
    } else {
        if i != n {
            assert(!has_e(t@));
            assert(!wf_numeric(t@));
            return None;
        }
        assert(!has_e(t@));
        assert(wf_numeric(t@));
        proof {
            assert(exp_digits(t@) =~= Seq::<u8>::empty());
            assert(eval == acc_exp(exp_digits(t@)));
            assert(!exp_negative(t@));
        }
    }
    // assemble the exponent, saturating far outside any practical range
    let idc: i64 = intdrop as i64;
    let fl: i64 = if frackept > 1000000000000 {
        1000000000000
    } else {
        frackept as i64
    };
    let es: i64 = if eneg {
        -(eval as i64)
    } else {
        eval as i64
    };
    let exp0: i64 = es + idc - fl;
    let exp: i64 = if exp0 > EXP_LIMIT {
        EXP_LIMIT
    } else if exp0 < -EXP_LIMIT {
        -EXP_LIMIT
    } else {
        exp0
    };
    proof {
        if exact_range(t@) {
            let mdigs = mant_digits(t@);
            assert(mdigs =~= int_digits(t@) + frac_digits(t@));
            assert(all_digits(mdigs)) by {
                lemma_digit_run(t@, sign_len(t@));
                if has_dot(t@) {
                    lemma_digit_run(t@, int_end(t@) + 1);
                }
            }
            lemma_acc_exact(mdigs);
            lemma_acc_kept_exact(int_digits(t@), frac_digits(t@));
            assert(all_digits(int_digits(t@))) by {
                assert(forall|k: int|
                    0 <= k < int_digits(t@).len() ==> int_digits(t@)[k] == mdigs[k]);
            }
            lemma_digits_val_prefix(int_digits(t@), frac_digits(t@));
            lemma_digits_val_nonneg(int_digits(t@));
            lemma_acc_exact(int_digits(t@));
            if has_e(t@) {
                assert(all_digits(exp_digits(t@))) by {
                    lemma_digit_run(t@, exp_start(t@));
                }
                lemma_digits_val_nonneg(exp_digits(t@));
                lemma_acc_exp_exact(exp_digits(t@));
            }
        }
    }
    Some(Dec { neg, mant, exp })
}

} // verus!
