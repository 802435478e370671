//! Saturating fixed-point arithmetic for the scroll physics.
//!
//! Positions, velocities and times are carried as `i64` values holding
//! `FX_SCALE` increments per unit. Every operation clips its result into
//! `[-FX_MAX, FX_MAX]`, so a value can never silently wrap: the bound plays
//! the role that infinity plays for floating point, and the invariant that
//! stored values stay inside the bound replaces the "never NaN or infinite"
//! rule of a floating-point implementation.

use vstd::prelude::*;

verus! {

use vstd::arithmetic::mul::lemma_mul_upper_bound;

/// Fixed-point increments per unit value.
pub const FX_SCALE: i64 = 1_000_000;

/// Saturation bound of the fixed-point domain.
pub const FX_MAX: i64 = 100_000_000_000_000_000;

/// A value inside the representable fixed-point range.
pub open spec fn fx_ok(x: int) -> bool {
    -(FX_MAX as int) <= x <= FX_MAX as int
}

/// Clip into the representable range.
pub open spec fn fx_clip(x: int) -> int {
    if x > FX_MAX as int {
        FX_MAX as int
    } else if x < -(FX_MAX as int) {
        -(FX_MAX as int)
    } else {
        x
    }
}

pub open spec fn fx_abs(x: int) -> int {
    if x < 0 {
        -x
    } else {
        x
    }
}

/// Saturating sum.
pub open spec fn fx_add_s(a: int, b: int) -> int {
    fx_clip(a + b)
}

/// Saturating difference.
pub open spec fn fx_sub_s(a: int, b: int) -> int {
    fx_clip(a - b)
}

/// Saturating fixed-point product: magnitudes are multiplied, rescaled by
/// `FX_SCALE` rounding toward zero, and the sign is reapplied.
pub open spec fn fx_mul_s(a: int, b: int) -> int {
    let m = (fx_abs(a) * fx_abs(b)) / (FX_SCALE as int);
    if (a < 0) != (b < 0) {
        fx_clip(-m)
    } else {
        fx_clip(m)
    }
}

/// Saturating fixed-point quotient, rounding the magnitude toward zero.
pub open spec fn fx_div_s(a: int, b: int) -> int {
    let m = (fx_abs(a) * (FX_SCALE as int)) / fx_abs(b);
    if (a < 0) != (b < 0) {
        fx_clip(-m)
    } else {
        fx_clip(m)
    }
}

/// Magnitude of an `i64`, widened so that `i64::MIN` needs no special case.
fn abs_wide(a: i64) -> (r: u128)
    ensures
        r as int == fx_abs(a as int),
{
    if a < 0 {
        (-(a as i128)) as u128
    } else {
        a as u128
    }
}

/// Reapply a sign to a clipped magnitude.
fn apply_sign(m: u128, neg: bool) -> (r: i64)
    requires
        m <= FX_MAX as u128,
    ensures
        r as int == (if neg {
            -(m as int)
        } else {
            m as int
        }),
        fx_ok(r as int),
{
    if neg {
        -(m as i64)
    } else {
        m as i64
    }
}

pub fn fx_add(a: i64, b: i64) -> (r: i64)
    ensures
        r as int == fx_add_s(a as int, b as int),
        fx_ok(r as int),
{
    let s: i128 = a as i128 + b as i128;
    if s > FX_MAX as i128 {
        FX_MAX
    } else if s < -(FX_MAX as i128) {
        -FX_MAX
    } else {
        s as i64
    }
}

pub fn fx_sub(a: i64, b: i64) -> (r: i64)
    ensures
        r as int == fx_sub_s(a as int, b as int),
        fx_ok(r as int),
{
    let s: i128 = a as i128 - b as i128;
    if s > FX_MAX as i128 {
        FX_MAX
    } else if s < -(FX_MAX as i128) {
        -FX_MAX
    } else {
        s as i64
    }
}

pub fn fx_mul(a: i64, b: i64) -> (r: i64)
    ensures
        r as int == fx_mul_s(a as int, b as int),
        fx_ok(r as int),
{
    let am = abs_wide(a);
    let bm = abs_wide(b);
    proof {
        lemma_mul_upper_bound(am as int, 0x8000_0000_0000_0000, bm as int, 0x8000_0000_0000_0000);
    }
    let m = (am * bm) / (FX_SCALE as u128);
    let neg = (a < 0) != (b < 0);
    if m > FX_MAX as u128 {
        apply_sign(FX_MAX as u128, neg)
    } else {
        apply_sign(m, neg)
    }
}

pub fn fx_div(a: i64, b: i64) -> (r: i64)
    requires
        b != 0,
    ensures
        r as int == fx_div_s(a as int, b as int),
        fx_ok(r as int),
{
    let am = abs_wide(a);
    let bm = abs_wide(b);
    let m = (am * (FX_SCALE as u128)) / bm;
    let neg = (a < 0) != (b < 0);
    if m > FX_MAX as u128 {
        apply_sign(FX_MAX as u128, neg)
    } else {
        apply_sign(m, neg)
    }
}

/// Magnitude within the saturating domain.
pub fn fx_abs_val(a: i64) -> (r: i64)
    requires
        fx_ok(a as int),
    ensures
        r as int == fx_abs(a as int),
        fx_ok(r as int),
{
    if a < 0 {
        -a
    } else {
        a
    }
}


/// Saturating fused multiply-divide `a * b / c` with no intermediate
/// rescaling, rounding the magnitude toward zero.
pub open spec fn fx_muldiv_s(a: int, b: int, c: int) -> int {
    let m = (fx_abs(a) * fx_abs(b)) / fx_abs(c);
    if ((a < 0) != (b < 0)) != (c < 0) {
        fx_clip(-m)
    } else {
        fx_clip(m)
    }
}

pub fn fx_muldiv(a: i64, b: i64, c: i64) -> (r: i64)
    requires
        c != 0,
    ensures
        r as int == fx_muldiv_s(a as int, b as int, c as int),
        fx_ok(r as int),
{
    let am = abs_wide(a);
    let bm = abs_wide(b);
    let cm = abs_wide(c);
    proof {
        lemma_mul_upper_bound(am as int, 0x8000_0000_0000_0000, bm as int, 0x8000_0000_0000_0000);
    }
    let m = (am * bm) / cm;
    let neg = ((a < 0) != (b < 0)) != (c < 0);
    if m > FX_MAX as u128 {
        apply_sign(FX_MAX as u128, neg)
    } else {
        apply_sign(m, neg)
    }
}

/// Tenth power, written as a product chain so that it needs no recursion.
pub open spec fn pow10_s(r: int) -> int {
    let r2 = r * r;
    let r4 = r2 * r2;
    let r8 = r4 * r4;
    r8 * r2
}

/// Fifth power as a product chain.
pub open spec fn pow5_s(r: int) -> int {
    let r2 = r * r;
    let r4 = r2 * r2;
    r4 * r
}

/// Largest `r` below `bound` whose tenth power is at most `t` (zero when
/// every candidate overshoots; `t` is never negative where this is used).
pub open spec fn root10_below(t: int, bound: nat) -> int
    decreases bound,
{
    if bound <= 1 {
        0
    } else if pow10_s(bound - 1) <= t {
        bound - 1
    } else {
        root10_below(t, (bound - 1) as nat)
    }
}

/// Largest `r` below `bound` whose fifth power is at most `t`.
pub open spec fn root5_below(t: int, bound: nat) -> int
    decreases bound,
{
    if bound <= 1 {
        0
    } else if pow5_s(bound - 1) <= t {
        bound - 1
    } else {
        root5_below(t, (bound - 1) as nat)
    }
}

fn pow10_exec(r: u64) -> (p: u128)
    requires
        r <= 2000,
    ensures
        p as int == pow10_s(r as int),
{
    proof {
        lemma_mul_upper_bound(r as int, 2000, r as int, 2000);
    }
    let r2: u128 = (r as u128) * (r as u128);
    proof {
        lemma_mul_upper_bound(r2 as int, 4_000_000, r2 as int, 4_000_000);
    }
    let r4: u128 = r2 * r2;
    proof {
        lemma_mul_upper_bound(r4 as int, 16_000_000_000_000, r4 as int, 16_000_000_000_000);
    }
    let r8: u128 = r4 * r4;
    proof {
        lemma_mul_upper_bound(r8 as int, 256_000_000_000_000_000_000_000_000, r2 as int, 4_000_000);
    }
    r8 * r2
}

fn pow5_exec(r: u64) -> (p: u128)
    requires
        r <= 4000,
    ensures
        p as int == pow5_s(r as int),
{
    proof {
        lemma_mul_upper_bound(r as int, 4000, r as int, 4000);
    }
    let r2: u128 = (r as u128) * (r as u128);
    proof {
        lemma_mul_upper_bound(r2 as int, 16_000_000, r2 as int, 16_000_000);
    }
    let r4: u128 = r2 * r2;
    proof {
        lemma_mul_upper_bound(r4 as int, 256_000_000_000_000, r as int, 4000);
    }
    r4 * (r as u128)
}

fn root10_search(t: u128) -> (r: u64)
    ensures
        r as int == root10_below(t as int, 2001),
        r <= 2000,
{
    let mut r: u64 = 2000;
    while r > 0 && pow10_exec(r) > t
        invariant
            r <= 2000,
            root10_below(t as int, 2001) == root10_below(t as int, (r + 1) as nat),
        decreases r,
    {
        r = r - 1;
    }
    r
}

fn root5_search(t: u128) -> (r: u64)
    ensures
        r as int == root5_below(t as int, 4001),
        r <= 4000,
{
    let mut r: u64 = 4000;
    while r > 0 && pow5_exec(r) > t
        invariant
            r <= 4000,
            root5_below(t as int, 4001) == root5_below(t as int, (r + 1) as nat),
        decreases r,
    {
        r = r - 1;
    }
    r
}

/// The friction factor of the decay model: the three-tenths power of the
/// velocity magnitude, `(m / FX_SCALE) ^ 0.3` in fixed point, computed to a
/// hundredth of a unit and saturated above `10_000` units.
pub open spec fn friction_factor_s(m: int) -> int {
    let capped = if m > 10_000_000_000 {
        10_000_000_000
    } else {
        m
    };
    let mc = capped / 10_000;
    10_000 * root10_below(mc * mc * mc * 100_000_000_000_000, 2001)
}

pub fn friction_factor(m: i64) -> (r: i64)
    requires
        m >= 0,
    ensures
        r as int == friction_factor_s(m as int),
        0 <= r <= 20_000_000,
{
    let capped: u64 = if m > 10_000_000_000 {
        10_000_000_000
    } else {
        m as u64
    };
    let mc: u64 = capped / 10_000;
    proof {
        lemma_mul_upper_bound(mc as int, 1_000_000, mc as int, 1_000_000);
        lemma_mul_upper_bound(
            (mc * mc) as int,
            1_000_000_000_000,
            mc as int,
            1_000_000,
        );
    }
    let t: u128 = (mc as u128) * (mc as u128) * (mc as u128) * 100_000_000_000_000u128;
    let q = root10_search(t);
    (q * 10_000) as i64
}

/// The two-fifths power of a nonnegative fixed-point value,
/// `(x / FX_SCALE) ^ 0.4` in fixed point, computed to a hundredth of a
/// unit and saturated above `10_000` units.
pub open spec fn frac_pow_two_fifths_s(x: int) -> int {
    let capped = if x > 10_000_000_000 {
        10_000_000_000
    } else {
        x
    };
    let xc = capped / 10_000;
    10_000 * root5_below(xc * xc * 1_000_000, 4001)
}

pub fn frac_pow_two_fifths(x: i64) -> (r: i64)
    requires
        x >= 0,
    ensures
        r as int == frac_pow_two_fifths_s(x as int),
        0 <= r <= 40_000_000,
{
    let capped: u64 = if x > 10_000_000_000 {
        10_000_000_000
    } else {
        x as u64
    };
    let xc: u64 = capped / 10_000;
    proof {
        lemma_mul_upper_bound(xc as int, 1_000_000, xc as int, 1_000_000);
    }
    let t: u128 = (xc as u128) * (xc as u128) * 1_000_000u128;
    let q = root5_search(t);
    (q * 10_000) as i64
}


/// The product's sign follows the factors' signs, and a product of values
/// at most `FX_MAX` in magnitude never saturates upward in magnitude.
pub broadcast proof fn lemma_fx_mul_sign(a: int, b: int)
    ensures
        (a >= 0 && b >= 0) ==> #[trigger] fx_mul_s(a, b) >= 0,
        (a <= 0 && b >= 0) ==> fx_mul_s(a, b) <= 0,
        (a >= 0 && b <= 0) ==> fx_mul_s(a, b) <= 0,
        (a <= 0 && b <= 0) ==> fx_mul_s(a, b) >= 0,
{
    vstd::arithmetic::mul::lemma_mul_nonnegative(fx_abs(a), fx_abs(b));
    vstd::arithmetic::div_mod::lemma_div_pos_is_pos(fx_abs(a) * fx_abs(b), FX_SCALE as int);
    let m = (fx_abs(a) * fx_abs(b)) / (FX_SCALE as int);
    assert(m >= 0);
    if a == 0 || b == 0 {
        vstd::arithmetic::mul::lemma_mul_by_zero_is_zero(fx_abs(a));
        vstd::arithmetic::mul::lemma_mul_by_zero_is_zero(fx_abs(b));
        vstd::arithmetic::div_mod::lemma_div_of0(FX_SCALE as int);
        assert(m == 0);
    }
    if (a < 0) != (b < 0) {
        assert(fx_mul_s(a, b) == fx_clip(-m));
        assert(fx_clip(-m) <= 0);
    } else {
        assert(fx_mul_s(a, b) == fx_clip(m));
        assert(fx_clip(m) >= 0);
    }
}

/// The quotient's sign follows the operands' signs.
pub broadcast proof fn lemma_fx_div_sign(a: int, b: int)
    requires
        b != 0,
    ensures
        (a >= 0 && b > 0) ==> #[trigger] fx_div_s(a, b) >= 0,
        (a <= 0 && b > 0) ==> fx_div_s(a, b) <= 0,
{
    vstd::arithmetic::mul::lemma_mul_nonnegative(fx_abs(a), FX_SCALE as int);
    vstd::arithmetic::div_mod::lemma_div_pos_is_pos(fx_abs(a) * (FX_SCALE as int), fx_abs(b));
}

/// The fused multiply-divide's sign follows its operands' signs.
pub broadcast proof fn lemma_fx_muldiv_sign(a: int, b: int, c: int)
    requires
        c != 0,
    ensures
        (a >= 0 && b >= 0 && c > 0) ==> #[trigger] fx_muldiv_s(a, b, c) >= 0,
        (a <= 0 && b >= 0 && c > 0) ==> fx_muldiv_s(a, b, c) <= 0,
{
    vstd::arithmetic::mul::lemma_mul_nonnegative(fx_abs(a), fx_abs(b));
    if c != 0 {
        vstd::arithmetic::div_mod::lemma_div_pos_is_pos(fx_abs(a) * fx_abs(b), fx_abs(c));
        let m = (fx_abs(a) * fx_abs(b)) / fx_abs(c);
        assert(m >= 0);
        if a == 0 || b == 0 {
            vstd::arithmetic::mul::lemma_mul_by_zero_is_zero(fx_abs(a));
            vstd::arithmetic::mul::lemma_mul_by_zero_is_zero(fx_abs(b));
            vstd::arithmetic::div_mod::lemma_div_of0(fx_abs(c));
            assert(m == 0);
        }
        if ((a < 0) != (b < 0)) != (c < 0) {
            assert(fx_muldiv_s(a, b, c) == fx_clip(-m));
        } else {
            assert(fx_muldiv_s(a, b, c) == fx_clip(m));
        }
    }
}


pub proof fn lemma_root10_below_nonneg(t: int, bound: nat)
    ensures
        root10_below(t, bound) >= 0,
    decreases bound,
{
    if bound > 1 && !(pow10_s(bound - 1) <= t) {
        lemma_root10_below_nonneg(t, (bound - 1) as nat);
    }
}

/// The friction factor is never negative, so decay can only dissipate.
pub proof fn lemma_friction_factor_nonneg(m: int)
    ensures
        friction_factor_s(m) >= 0,
{
    let capped = if m > 10_000_000_000 {
        10_000_000_000int
    } else {
        m
    };
    let mc = capped / 10_000;
    lemma_root10_below_nonneg(mc * mc * mc * 100_000_000_000_000, 2001);
    vstd::arithmetic::mul::lemma_mul_nonnegative(
        10_000,
        root10_below(mc * mc * mc * 100_000_000_000_000, 2001),
    );
}

} // verus!
