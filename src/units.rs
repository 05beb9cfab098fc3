//! Conversion between the millimetre values of the text form and the nanometre integers held
//! in memory.
use crate::sexpr::Decimal;
use vstd::arithmetic::div_mod::{lemma_div_by_multiple, lemma_div_denominator};
use vstd::arithmetic::mul::lemma_mul_is_associative;
use vstd::prelude::*;

verus! {

/// `10^n`.
pub open spec fn pow10(n: nat) -> nat
    decreases n,
{
    if n == 0 {
        1
    } else {
        10 * pow10((n - 1) as nat)
    }
}

/// Division that rounds toward zero.
pub open spec fn trunc_div(a: int, b: int) -> int {
    if a >= 0 {
        a / b
    } else {
        -((-a) / b)
    }
}

/// The millimetre value `d` times one million, truncated toward zero: the decimal point moves
/// six places to the right and the digits left behind it are dropped.
pub open spec fn spec_shift_mm(d: Decimal) -> int {
    if d.scale <= 6 {
        d.mantissa * pow10((6 - d.scale) as nat)
    } else {
        trunc_div(d.mantissa as int, pow10((d.scale - 6) as nat) as int)
    }
}

/// `x` held to the range of `i64`.
pub open spec fn clamp_i64(x: int) -> i64 {
    if x < i64::MIN {
        i64::MIN
    } else if x > i64::MAX {
        i64::MAX
    } else {
        x as i64
    }
}

/// `x` held to the range of `u64`.
pub open spec fn clamp_u64(x: int) -> u64 {
    if x < 0 {
        0
    } else if x > u64::MAX {
        u64::MAX
    } else {
        x as u64
    }
}

/// Nanometres for `d` millimetres: truncated toward zero, saturating at the bounds of `i64`.
pub open spec fn spec_mm_to_nm(d: Decimal) -> i64 {
    clamp_i64(spec_shift_mm(d))
}

/// Nanometres for a length that may not be negative; `None` for a negative one.
pub open spec fn spec_mm_to_unsigned_nm(d: Decimal) -> Option<u64> {
    if d.mantissa < 0 {
        None
    } else {
        Some(clamp_u64(spec_shift_mm(d)))
    }
}

/// The millimetre value of `nm` nanometres.
pub open spec fn spec_nm_to_mm(nm: i64) -> Decimal {
    Decimal { mantissa: nm, scale: 6 }
}

proof fn lemma_pow10_positive(n: nat)
    ensures
        pow10(n) >= 1,
    decreases n,
{
    if n > 0 {
        lemma_pow10_positive((n - 1) as nat);
    }
}

proof fn lemma_pow10_grows(a: nat, b: nat)
    requires
        a <= b,
    ensures
        pow10(a) <= pow10(b),
    decreases b,
{
    if a < b {
        lemma_pow10_grows(a, (b - 1) as nat);
        lemma_pow10_positive((b - 1) as nat);
    }
}

proof fn lemma_pow10_add(a: nat, b: nat)
    ensures
        pow10(a + b) == pow10(a) * pow10(b),
    decreases a,
{
    if a > 0 {
        lemma_pow10_add((a - 1) as nat, b);
        lemma_mul_is_associative(10, pow10((a - 1) as nat) as int, pow10(b) as int);
        let x = pow10((a - 1) as nat) as int;
        let y = pow10(b) as int;
        assert((a + b - 1) as nat == ((a - 1) as nat + b) as nat);
        assert(pow10(a + b) == 10 * pow10((a + b - 1) as nat));
        assert(pow10(a) == 10 * x);
        assert(pow10(a + b) == 10 * (x * y));
        assert(10 * (x * y) == (10 * x) * y);
        assert(pow10(a) * pow10(b) == (10 * x) * y);
    } else {
        assert(pow10(0) == 1);
        assert(a + b == b);
    }
}

proof fn lemma_pow10_small()
    ensures
        pow10(6) == 1_000_000,
        pow10(19) == 10_000_000_000_000_000_000,
{
    reveal_with_fuel(pow10, 20);
}

/// `10^n` for `n <= 19`.
fn pow10_u128(n: u32) -> (r: u128)
    requires
        n <= 19,
    ensures
        r == pow10(n as nat),
{
    let mut r: u128 = 1;
    let mut i: u32 = 0;
    while i < n
        invariant
            i <= n <= 19,
            r == pow10(i as nat),
        decreases n - i,
    {
        proof {
            lemma_pow10_grows((i + 1) as nat, 19);
            lemma_pow10_small();
        }
        r = r * 10;
        i = i + 1;
    }
    r
}

/// The exact value `d * 10^6` truncated toward zero, as an `i128`.
fn shift_mm(d: Decimal) -> (r: i128)
    ensures
        r == spec_shift_mm(d),
{
    let negative = d.mantissa < 0;
    let magnitude: u128 = if negative {
        (-(d.mantissa as i128)) as u128
    } else {
        d.mantissa as u128
    };
    assert(magnitude <= 9_223_372_036_854_775_808);
    if d.scale <= 6 {
        let p = pow10_u128(6 - d.scale);
        proof {
            lemma_pow10_grows((6 - d.scale) as nat, 6);
            lemma_pow10_small();
            assert(magnitude * p <= 9_223_372_036_854_775_808 * 1_000_000) by (nonlinear_arith)
                requires
                    magnitude <= 9_223_372_036_854_775_808,
                    p <= 1_000_000,
            ;
        }
        let q = magnitude * p;
        proof {
            let m = d.mantissa as int;
            if negative {
                assert(q == (-m) * p);
                assert((-m) * p == -(m * p)) by (nonlinear_arith);
            }
        }
        if negative {
            -(q as i128)
        } else {
            q as i128
        }
    } else if d.scale - 6 > 19 {
        proof {
            lemma_pow10_grows(19, (d.scale - 6) as nat);
            lemma_pow10_small();
            let p = pow10((d.scale - 6) as nat) as int;
            let mg = magnitude as int;
            assert(mg / p == 0) by (nonlinear_arith)
                requires
                    mg < p,
                    0 <= mg,
            ;
        }
        0
    } else {
        let p = pow10_u128(d.scale - 6);
        proof {
            lemma_pow10_positive((d.scale - 6) as nat);
        }
        let q = magnitude / p;
        proof {
            assert(q <= magnitude) by (nonlinear_arith)
                requires
                    q == magnitude / p,
                    p >= 1,
                    magnitude >= 0,
            ;
        }
        if negative {
            -(q as i128)
        } else {
            q as i128
        }
    }
}

/// Converts millimetres to nanometres: truncation toward zero, saturating at the bounds of
/// `i64`.
pub fn mm_to_nm(d: Decimal) -> (r: i64)
    ensures
        r == spec_mm_to_nm(d),
{
    let x = shift_mm(d);
    if x < i64::MIN as i128 {
        i64::MIN
    } else if x > i64::MAX as i128 {
        i64::MAX
    } else {
        x as i64
    }
}

/// Converts a length that may not be negative from millimetres to nanometres; `None` when it is
/// negative.
pub fn mm_to_unsigned_nm(d: Decimal) -> (r: Option<u64>)
    ensures
        r == spec_mm_to_unsigned_nm(d),
{
    if d.mantissa < 0 {
        None
    } else {
        let x = shift_mm(d);
        if x < 0 {
            Some(0)
        } else if x > u64::MAX as i128 {
            Some(u64::MAX)
        } else {
            Some(x as u64)
        }
    }
}

/// Converts millimetres to nanometres held to the range of `u64`: a negative length becomes
/// zero.
pub fn mm_to_clamped_unsigned_nm(d: Decimal) -> (r: u64)
    ensures
        r == clamp_u64(spec_shift_mm(d)),
{
    let x = shift_mm(d);
    if x < 0 {
        0
    } else if x > u64::MAX as i128 {
        u64::MAX
    } else {
        x as u64
    }
}

/// Converts nanometres back to millimetres, exactly.
pub fn nm_to_mm(nm: i64) -> (r: Decimal)
    ensures
        r == spec_nm_to_mm(nm),
{
    Decimal { mantissa: nm, scale: 6 }
}

/// Decoding a millimetre value and encoding it again recovers `truncate(mm * 10^6) / 10^6`:
/// the round trip is exact in nanometres, and decoding the recovered value once more gives the
/// same nanometres.
pub proof fn lemma_mm_round_trip(d: Decimal)
    requires
        i64::MIN <= trunc_div(d.mantissa * pow10(6), pow10(d.scale as nat) as int) <= i64::MAX,
    ensures
        spec_shift_mm(d) == trunc_div(d.mantissa * pow10(6), pow10(d.scale as nat) as int),
        spec_nm_to_mm(spec_mm_to_nm(d)).mantissa == trunc_div(
            d.mantissa * pow10(6),
            pow10(d.scale as nat) as int,
        ),
        spec_nm_to_mm(spec_mm_to_nm(d)).scale == 6,
        spec_mm_to_nm(spec_nm_to_mm(spec_mm_to_nm(d))) == spec_mm_to_nm(d),
{
    lemma_shift_is_scaled_truncation(d);
    let n = spec_mm_to_nm(d);
    let back = spec_nm_to_mm(n);
    assert(pow10((back.scale - 6) as nat) == 1) by {
        assert((back.scale - 6) as nat == 0);
    }
    assert(spec_shift_mm(back) == n as int);
}

proof fn lemma_shift_is_scaled_truncation(d: Decimal)
    ensures
        spec_shift_mm(d) == trunc_div(d.mantissa * pow10(6), pow10(d.scale as nat) as int),
{
    let m = d.mantissa as int;
    let s = d.scale as nat;
    lemma_pow10_positive(s);
    lemma_pow10_positive(6);
    let ps = pow10(s) as int;
    let million = pow10(6) as int;
    let a = if m >= 0 { m } else { -m };
    if s <= 6 {
        let k = (6 - s) as nat;
        lemma_pow10_add(k, s);
        lemma_pow10_positive(k);
        let pk = pow10(k) as int;
        assert(million == pk * ps);
        assert(a * million == (a * pk) * ps) by (nonlinear_arith)
            requires
                million == pk * ps,
        ;
        assert(a * pk >= 0) by (nonlinear_arith)
            requires
                a >= 0,
                pk >= 1,
        ;
        lemma_div_by_multiple(a * pk, ps);
        assert((a * million) / ps == a * pk);
        if m >= 0 {
            assert(m * million >= 0) by (nonlinear_arith)
                requires
                    m >= 0,
                    million >= 1,
            ;
        } else {
            assert(m * million < 0) by (nonlinear_arith)
                requires
                    m < 0,
                    million >= 1,
            ;
            assert(-(m * million) == a * million) by (nonlinear_arith)
                requires
                    a == -m,
            ;
            assert(-(a * pk) == m * pk) by (nonlinear_arith)
                requires
                    a == -m,
            ;
        }
    } else {
        let k = (s - 6) as nat;
        lemma_pow10_add(k, 6);
        lemma_pow10_positive(k);
        let pk = pow10(k) as int;
        assert(ps == pk * million);
        assert(ps == million * pk) by (nonlinear_arith)
            requires
                ps == pk * million,
        ;
        assert(a * million >= 0) by (nonlinear_arith)
            requires
                a >= 0,
                million >= 1,
        ;
        lemma_div_denominator(a * million, million, pk);
        lemma_div_by_multiple(a, million);
        assert((a * million) / ps == a / pk);
        if m >= 0 {
        } else {
            assert(m * million < 0) by (nonlinear_arith)
                requires
                    m < 0,
                    million >= 1,
            ;
            assert(-(m * million) == a * million) by (nonlinear_arith)
                requires
                    a == -m,
            ;
        }
    }
}

} // verus!
