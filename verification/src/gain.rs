//! Gains, and the binary rounding with which they are applied.
//!
//! A gain is a factor between zero and 128, held as a multiple of `2^-25`. Every
//! gain of the controller is a single-precision binary number that this grid
//! holds exactly. Applying a gain rounds like double-precision binary
//! arithmetic does: every intermediate result is brought to the nearest number
//! of 53 significant bits, the even one where two are equally near.

use vstd::prelude::*;
use vstd::arithmetic::div_mod::{
    lemma_div_denominator, lemma_fundamental_div_mod, lemma_fundamental_div_mod_converse,
};
use vstd::arithmetic::mul::lemma_mul_is_associative;
use vstd::arithmetic::power2::{lemma2_to64, lemma2_to64_rest, lemma_pow2_unfold, pow2};

verus! {

/// The gain that changes nothing.
pub const UNIT_GAIN: u32 = 0x0200_0000;

/// One past the largest integer of 53 bits.
pub const DOUBLE_LIMIT: u128 = 0x20_0000_0000_0000;

/// One past the largest integer of 24 bits.
pub const SINGLE_LIMIT: u128 = 0x100_0000;

/// The integer nearest to `num / den`, the even one of two equally near.
pub open spec fn nearest_even(num: nat, den: nat) -> nat {
    let low = num / den;
    let rest = num % den;
    if 2 * rest > den || (2 * rest == den && low % 2 == 1) {
        low + 1
    } else {
        low
    }
}

/// The distance of neighbouring numbers around `n` among those whose significand
/// stays below `limit`, a power of two.
pub open spec fn spacing(n: nat, limit: nat) -> nat
    decreases n,
{
    if n < limit || limit == 0 {
        1
    } else {
        2 * spacing(n / 2, limit)
    }
}

/// The quotient `num / den`, rounded to a significand below `limit`. The quotient
/// is a whole number or has an integer part of at least `limit / 2`.
pub open spec fn rounded(num: nat, den: nat, limit: nat) -> nat {
    let unit = spacing(num / den, limit);
    nearest_even(num, den * unit) * unit
}

/// `n` times `gain`, in units of `2^-25`: `n` is rounded first, then the product.
pub open spec fn product(gain: u32, n: u64) -> nat {
    rounded(gain as nat * rounded(n as nat, 1, DOUBLE_LIMIT as nat), 1, DOUBLE_LIMIT as nat)
}

/// `n` times `gain`, truncated to an integer and capped at `u64::MAX`.
#[verifier::opaque]
pub open spec fn scaled(gain: u32, n: u64) -> u64 {
    let whole = product(gain, n) / UNIT_GAIN as nat;
    if whole > u64::MAX {
        u64::MAX
    } else {
        whole as u64
    }
}

/// The millionth part of `n` times `gain`, truncated to an integer. The quotient
/// is rounded before it is truncated. Rounding commutes with powers of two, so it
/// happens here on `2^73` times the quotient, which is large enough.
#[verifier::opaque]
pub open spec fn scaled_millionth(gain: u32, n: u64) -> nat {
    rounded(product(gain, n) * 0x200_0000_0000_0000_0000, 1_000_000, DOUBLE_LIMIT as nat) / (
    0x200_0000_0000_0000_0000 * UNIT_GAIN as nat)
}

proof fn lemma_spacing_positive(n: nat, limit: nat)
    requires
        limit >= 2,
    ensures
        spacing(n, limit) >= 1,
        spacing(n, limit) == 1 || spacing(n, limit) <= n,
    decreases n,
{
    if n < limit || limit == 0 {
    } else {
        lemma_spacing_positive(n / 2, limit);
    }
}

/// The spacing of binary numbers around `n`.
fn spacing_of(n: u128, limit: u128) -> (unit: u128)
    requires
        limit >= 2,
    ensures
        unit == spacing(n as nat, limit as nat),
{
    let bound: u128 = n / limit;
    let mut unit: u128 = 1;
    while unit <= bound
        invariant
            unit >= 1,
            limit >= 2,
            bound == n / limit,
            spacing(n as nat, limit as nat) == unit * spacing(
                (n / unit) as nat,
                limit as nat,
            ),
        decreases n + 1 - unit,
    {
        proof {
            lemma_unit_below_bound(n as int, limit as int, unit as int);
            lemma_div_denominator(n as int, unit as int, 2);
            lemma_mul_is_associative(
                unit as int,
                2,
                spacing((n / (unit * 2) as u128) as nat, limit as nat) as int,
            );
        }
        unit = unit * 2;
    }
    proof {
        lemma_unit_above_bound(n as int, limit as int, unit as int);
        let rest = spacing((n / unit) as nat, limit as nat);
        assert(unit * rest == unit) by (nonlinear_arith)
            requires
                rest == 1,
        ;
    }
    unit
}

proof fn lemma_unit_below_bound(n: int, limit: int, unit: int)
    by (nonlinear_arith)
    requires
        n >= 0,
        limit >= 2,
        unit >= 1,
        unit <= n / limit,
    ensures
        n / unit >= limit,
        unit * 2 <= n,
{
}

proof fn lemma_unit_above_bound(n: int, limit: int, unit: int)
    by (nonlinear_arith)
    requires
        n >= 0,
        limit >= 2,
        unit >= 1,
        unit > n / limit,
    ensures
        n / unit < limit,
{
}

proof fn lemma_remainder_of_product(num: int, den: int, unit: int)
    requires
        num >= 0,
        den >= 1,
        unit >= 1,
    ensures
        den * unit >= 1,
        num / (den * unit) == (num / den) / unit,
        num % (den * unit) == ((num / den) % unit) * den + num % den,
{
    let q = num / den;
    let top = q / unit;
    let low = q % unit;
    let rest = low * den + num % den;
    lemma_fundamental_div_mod(num, den);
    lemma_fundamental_div_mod(q, unit);
    assert(num == top * (den * unit) + rest) by (nonlinear_arith)
        requires
            num == den * q + num % den,
            q == unit * top + low,
            rest == low * den + num % den,
    ;
    assert(0 <= rest < den * unit) by (nonlinear_arith)
        requires
            0 <= low < unit,
            0 <= num % den < den,
            rest == low * den + num % den,
    ;
    lemma_fundamental_div_mod_converse(num, den * unit, top, rest);
}

/// The quotient `num / den`, rounded to a significand below `limit`.
fn rounded_quotient(num: u128, den: u128, limit: u128) -> (r: u128)
    requires
        num <= 0x4000_0000_0000_0000_0000_0000_0000_0000,
        1 <= den <= 1_000_000,
        limit >= 2,
    ensures
        r == rounded(num as nat, den as nat, limit as nat),
        r <= 2 * (num / den) + 1,
{
    let q: u128 = num / den;
    let unit: u128 = spacing_of(q, limit);
    proof {
        lemma_spacing_positive(q as nat, limit as nat);
    }
    let top: u128 = q / unit;
    proof {
        lemma_remainder_of_product(num as int, den as int, unit as int);
        lemma_fundamental_div_mod(num as int, den as int);
        assert(den * unit <= num || den * unit == den) by (nonlinear_arith)
            requires
                unit == 1 || unit <= q,
                num == den * q + num % den,
                num % den >= 0,
                den >= 1,
        ;
        assert((q % unit) * den + num % den < den * unit) by (nonlinear_arith)
            requires
                0 <= q % unit < unit,
                0 <= num % den < den,
        ;
        assert(unit * top <= q) by {
            lemma_fundamental_div_mod(q as int, unit as int);
        }
        assert((top + 1) * unit == unit * top + unit) by (nonlinear_arith);
        assert(top * unit == unit * top) by (nonlinear_arith);
        assert((q % unit) * den >= 0) by (nonlinear_arith)
            requires
                q % unit >= 0,
                den >= 1,
        ;
    }
    let whole: u128 = den * unit;
    let rest: u128 = (q % unit) * den + num % den;
    if 2 * rest > whole || (2 * rest == whole && top % 2 == 1) {
        (top + 1) * unit
    } else {
        top * unit
    }
}

/// `n` times `gain` in units of `2^-25`.
fn product_of(gain: u32, n: u64) -> (p: u128)
    ensures
        p == product(gain, n),
        p < 0x4_0000_0000_0000_0000_0000_0000,
{
    let x: u128 = rounded_quotient(n as u128, 1, DOUBLE_LIMIT);
    assert(x <= 0x1_ffff_ffff_ffff_ffff);
    assert(gain * x <= 0x1_ffff_fffd_ffff_ffff_ffff_ffff) by (nonlinear_arith)
        requires
            0 <= gain <= 0xffff_ffff,
            0 <= x <= 0x1_ffff_ffff_ffff_ffff,
    ;
    assert(gain * x >= 0) by (nonlinear_arith)
        requires
            0 <= gain,
            0 <= x,
    ;
    rounded_quotient(gain as u128 * x, 1, DOUBLE_LIMIT)
}

/// `n` times `gain`, truncated to an integer and capped at `u64::MAX`.
pub fn scale(gain: u32, n: u64) -> (r: u64)
    ensures
        r == scaled(gain, n),
{
    reveal(scaled);
    let whole: u128 = product_of(gain, n) / (UNIT_GAIN as u128);
    if whole > 0xffff_ffff_ffff_ffff {
        u64::MAX
    } else {
        whole as u64
    }
}

/// Doubling a quotient that fills the significand doubles its rounded value.
proof fn lemma_rounded_doubles(num: nat, den: nat, limit: nat)
    requires
        den >= 1,
        limit >= 2,
        num / den >= limit,
    ensures
        rounded(num * 2, den, limit) == 2 * rounded(num, den, limit),
        (num * 2) / den >= limit,
{
    let q = num / den;
    let q2 = (num * 2) / den;
    let unit = spacing(q, limit);
    assert(2 * q <= q2 <= 2 * q + 1) by (nonlinear_arith)
        requires
            q == num / den,
            q2 == (num * 2) / den,
            den >= 1,
    ;
    assert(spacing(q2, limit) == 2 * unit);
    lemma_spacing_positive(q, limit);
    let d = den * unit;
    assert(den * (2 * unit) == 2 * d && d >= 1) by (nonlinear_arith)
        requires
            d == den * unit,
            den >= 1,
            unit >= 1,
    ;
    lemma_fundamental_div_mod(num as int, d as int);
    let (top, rest) = (num / d, num % d);
    assert(num * 2 == top * (2 * d) + 2 * rest) by (nonlinear_arith)
        requires
            num == d * top + rest,
    ;
    lemma_fundamental_div_mod_converse((num * 2) as int, (2 * d) as int, top as int, 2 * rest as int);
    let near = nearest_even(num, d);
    assert(nearest_even(num * 2, 2 * d) == near);
    assert(near * (2 * unit) == 2 * (near * unit)) by (nonlinear_arith);
}

/// The same for any power of two.
proof fn lemma_rounded_shifts(num: nat, den: nat, limit: nat, steps: nat)
    requires
        den >= 1,
        limit >= 2,
        num / den >= limit,
    ensures
        rounded(num * pow2(steps), den, limit) == pow2(steps) * rounded(num, den, limit),
        (num * pow2(steps)) / den >= limit,
    decreases steps,
{
    if steps == 0 {
        assert(pow2(0) == 1) by {
            lemma2_to64();
        }
        assert(num * 1 == num);
    } else {
        let less = (steps - 1) as nat;
        lemma_rounded_shifts(num, den, limit, less);
        lemma_rounded_doubles(num * pow2(less), den, limit);
        lemma_pow2_unfold(steps);
        let (a, b) = (pow2(less), rounded(num, den, limit));
        assert(num * (2 * a) == num * a * 2) by (nonlinear_arith);
        assert((2 * a) * b == 2 * (a * b)) by (nonlinear_arith);
    }
}

/// The millionth part of `n` times `gain`, truncated to an integer.
pub fn scale_millionth(gain: u32, n: u64) -> (r: u64)
    ensures
        r == scaled_millionth(gain, n),
{
    reveal(scaled_millionth);
    let p: u128 = product_of(gain, n);
    if p < DOUBLE_LIMIT {
        let near: u128 = rounded_quotient(p * 0x200_0000_0000_0000_0000, 1_000_000, DOUBLE_LIMIT);
        (near / 0x4_0000_0000_0000_0000_0000_0000) as u64
    } else {
        let near: u128 = rounded_quotient(p * 0x1000_0000, 1_000_000, DOUBLE_LIMIT);
        proof {
            lemma2_to64_rest();
            lemma_rounded_shifts((p * 0x1000_0000) as nat, 1_000_000, DOUBLE_LIMIT as nat, 45);
            assert(pow2(45) == 0x2000_0000_0000);
        }
        (near / 0x20_0000_0000_0000) as u64
    }
}

/// Whether `gain` lies below `n` once `n` is rounded to single precision.
#[verifier::opaque]
pub open spec fn below_single(gain: u32, n: u64) -> bool {
    gain < rounded(n as nat, 1, SINGLE_LIMIT as nat) * UNIT_GAIN
}

/// Whether `gain` lies below `n`. A gain is so small that rounding `n` to single
/// precision first makes no difference.
pub fn is_below(gain: u32, n: u64) -> (r: bool)
    ensures
        r == below_single(gain, n),
{
    proof {
        law_comparison_is_exact(gain, n);
    }
    (gain as u128) < (n as u128) * 0x0200_0000
}

/// A number of more bits than the significand has leaves its top bit set.
proof fn lemma_spacing_fills(n: nat, limit: nat)
    requires
        limit >= 2,
        n >= limit,
    ensures
        spacing(n, limit) >= 2,
        n / spacing(n, limit) >= limit / 2,
    decreases n,
{
    let half = spacing(n / 2, limit);
    lemma_spacing_positive(n / 2, limit);
    lemma_div_denominator(n as int, 2, half as int);
    if n / 2 >= limit {
        lemma_spacing_fills(n / 2, limit);
    }
}

/// A number that the significand holds is not rounded.
proof fn lemma_small_is_exact(n: nat, limit: nat)
    requires
        n < limit,
    ensures
        rounded(n, 1, limit) == n,
{
    assert(n / 1 == n && n % 1 == 0 && 1 * spacing(n, limit) == 1);
    assert(nearest_even(n, 1) * 1 == n);
}

/// Nor is a power of two times such a number.
proof fn lemma_shifted_is_exact(n: nat, limit: nat, steps: nat)
    requires
        limit >= 2,
        n < limit,
    ensures
        rounded(n * pow2(steps), 1, limit) == n * pow2(steps),
    decreases steps,
{
    let shifted = n * pow2(steps);
    if shifted < limit {
        lemma_small_is_exact(shifted, limit);
    } else if steps == 0 {
        assert(pow2(0) == 1) by {
            lemma2_to64();
        }
        assert(n * 1 == n);
    } else {
        let half = n * pow2((steps - 1) as nat);
        lemma_pow2_unfold(steps);
        lemma_shifted_is_exact(n, limit, (steps - 1) as nat);
        assert(shifted == half * 2) by (nonlinear_arith)
            requires
                shifted == n * pow2(steps),
                half == n * pow2((steps - 1) as nat),
                pow2(steps) == 2 * pow2((steps - 1) as nat),
        ;
        assert(half / 1 == half && shifted / 1 == shifted);
        if half >= limit {
            lemma_rounded_doubles(half, 1, limit);
        } else {
            assert(spacing(shifted, limit) == 2 * spacing(half, limit));
            assert(spacing(half, limit) == 1);
            assert(nearest_even(shifted, 2) == half);
        }
    }
}

/// The unit gain changes no number of up to 53 bits.
pub proof fn law_unit_gain_changes_nothing(n: u64)
    requires
        n < DOUBLE_LIMIT,
    ensures
        scaled(UNIT_GAIN, n) == n,
{
    reveal(scaled);
    lemma_small_is_exact(n as nat, DOUBLE_LIMIT as nat);
    lemma2_to64();
    assert(pow2(25) == 0x0200_0000);
    lemma_shifted_is_exact(n as nat, DOUBLE_LIMIT as nat, 25);
    assert(UNIT_GAIN as nat * n as nat == n as nat * pow2(25)) by (nonlinear_arith)
        requires
            pow2(25) == UNIT_GAIN as nat,
    ;
}

/// A product of up to 53 bits is exact, and only its fraction is cut off.
pub proof fn law_small_products_are_exact(gain: u32, n: u64)
    requires
        n < DOUBLE_LIMIT,
        gain * n < DOUBLE_LIMIT,
    ensures
        scaled(gain, n) == (gain * n) / 0x0200_0000,
{
    reveal(scaled);
    lemma_small_is_exact(n as nat, DOUBLE_LIMIT as nat);
    assert(gain as nat * n as nat == gain * n);
    assert(gain * n >= 0) by (nonlinear_arith)
        requires
            gain >= 0,
            n >= 0,
    ;
    lemma_small_is_exact((gain * n) as nat, DOUBLE_LIMIT as nat);
}

/// Rounding at most doubles a quotient.
proof fn lemma_rounded_is_bounded(num: nat, den: nat, limit: nat)
    requires
        den >= 1,
        limit >= 2,
    ensures
        rounded(num, den, limit) <= 2 * (num / den) + 1,
{
    let q = num / den;
    let unit = spacing(q, limit);
    lemma_spacing_positive(q, limit);
    lemma_remainder_of_product(num as int, den as int, unit as int);
    lemma_fundamental_div_mod(q as int, unit as int);
    let top = q / unit;
    let near = nearest_even(num, den * unit);
    assert(near * unit <= top * unit + unit) by (nonlinear_arith)
        requires
            near <= top + 1,
            unit >= 1,
    ;
    assert(top * unit <= q) by (nonlinear_arith)
        requires
            q == unit * top + q % unit,
            q % unit >= 0,
    ;
}

/// However large the product, its millionth part takes up to 55 bits.
pub proof fn law_millionth_part_is_small(gain: u32, n: u64)
    ensures
        scaled_millionth(gain, n) < 0x80_0000_0000_0000,
{
    reveal(scaled_millionth);
    let whole = rounded(n as nat, 1, DOUBLE_LIMIT as nat);
    lemma_rounded_is_bounded(n as nat, 1, DOUBLE_LIMIT as nat);
    assert(n as nat / 1 == n as nat);
    assert(gain as nat * whole <= 0xffff_ffff * 0x1_ffff_ffff_ffff_ffff) by (nonlinear_arith)
        requires
            0 <= gain <= 0xffff_ffff,
            whole <= 0x1_ffff_ffff_ffff_ffff,
    ;
    let exact = gain as nat * whole;
    lemma_rounded_is_bounded(exact, 1, DOUBLE_LIMIT as nat);
    assert(exact / 1 == exact);
    let p = product(gain, n);
    assert(p < 0x4_0000_0000_0000_0000_0000_0000);
    let large = p * 0x200_0000_0000_0000_0000;
    lemma_rounded_is_bounded(large, 1_000_000, DOUBLE_LIMIT as nat);
    let near = rounded(large, 1_000_000, DOUBLE_LIMIT as nat);
    assert(large < 0x800_0000_0000_0000_0000_0000_0000_0000_0000_0000_0000);
    assert(large / 1_000_000 < 0xc0_0000_0000_0000_0000_0000_0000_0000_0000_0000);
    assert(near < 0x180_0000_0000_0000_0000_0000_0000_0000_0000_0001);
    assert(near / 0x4_0000_0000_0000_0000_0000_0000 < 0x80_0000_0000_0000);
}

/// The spacing around a number brackets it: the number fits the significand, and
/// fills at least half of it where it does not fit as it is.
proof fn lemma_spacing_brackets(n: nat, limit: nat)
    requires
        limit >= 2,
        limit % 2 == 0,
    ensures
        spacing(n, limit) >= 1,
        n < spacing(n, limit) * limit,
        n >= limit ==> n >= spacing(n, limit) * (limit / 2),
    decreases n,
{
    if n >= limit {
        let half = spacing(n / 2, limit);
        lemma_spacing_brackets(n / 2, limit);
        assert(2 * half * limit == 2 * (half * limit)) by (nonlinear_arith);
        assert(2 * half * (limit / 2) == 2 * (half * (limit / 2))) by (nonlinear_arith);
        if n / 2 < limit {
            assert(half == 1);
            assert(1 * (limit / 2) == limit / 2);
        }
    } else {
        assert(1 * limit == limit);
    }
}

/// The spacing grows with the number, and by whole doublings.
proof fn lemma_spacing_grows(a: nat, b: nat, limit: nat)
    requires
        limit >= 2,
        a <= b,
    ensures
        spacing(a, limit) == spacing(b, limit) || 2 * spacing(a, limit) <= spacing(b, limit),
    decreases b,
{
    if b >= limit {
        lemma_spacing_positive(b / 2, limit);
        if a >= limit {
            lemma_spacing_grows(a / 2, b / 2, limit);
        }
    }
}

/// Rounding to whole multiples keeps the order.
proof fn lemma_nearest_grows(a: nat, b: nat, den: nat)
    requires
        den >= 1,
        a <= b,
    ensures
        nearest_even(a, den) <= nearest_even(b, den),
{
    lemma_fundamental_div_mod(a as int, den as int);
    lemma_fundamental_div_mod(b as int, den as int);
    let (p, q) = (a / den, b / den);
    assert(p <= q) by (nonlinear_arith)
        requires
            p == a / den,
            q == b / den,
            a <= b,
            den >= 1,
    ;
    if p == q {
        assert(den * p == den * q);
    }
}

/// Rounding keeps the order.
proof fn lemma_rounded_grows(a: nat, b: nat, den: nat, limit: nat)
    requires
        den >= 1,
        limit >= 2,
        limit % 2 == 0,
        a <= b,
    ensures
        rounded(a, den, limit) <= rounded(b, den, limit),
{
    let (p, q) = (a / den, b / den);
    assert(p <= q) by (nonlinear_arith)
        requires
            p == a / den,
            q == b / den,
            a <= b,
            den >= 1,
    ;
    let (u, v) = (spacing(p, limit), spacing(q, limit));
    lemma_spacing_brackets(p, limit);
    lemma_spacing_brackets(q, limit);
    lemma_spacing_grows(p, q, limit);
    lemma_remainder_of_product(a as int, den as int, u as int);
    lemma_remainder_of_product(b as int, den as int, v as int);
    let (m, n) = (nearest_even(a, den * u), nearest_even(b, den * v));
    if u == v {
        lemma_nearest_grows(a, b, den * u);
        assert(m * u <= n * v) by (nonlinear_arith)
            requires
                m <= n,
                u == v,
        ;
    } else {
        assert(p / u < limit) by (nonlinear_arith)
            requires
                p < u * limit,
                u >= 1,
        ;
        assert(q >= limit);
        assert(q / v >= limit / 2) by (nonlinear_arith)
            requires
                q >= v * (limit / 2),
                v >= 1,
        ;
        assert(m * u <= n * v) by (nonlinear_arith)
            requires
                m <= limit,
                n >= limit / 2,
                limit % 2 == 0,
                2 * u <= v,
        ;
    }
}

/// A larger number or a larger gain never gives a smaller product, nor a smaller
/// millionth part.
pub proof fn law_scaling_keeps_the_order(gain: u32, larger_gain: u32, n: u64, larger_n: u64)
    requires
        gain <= larger_gain,
        n <= larger_n,
    ensures
        scaled(gain, n) <= scaled(larger_gain, larger_n),
        scaled_millionth(gain, n) <= scaled_millionth(larger_gain, larger_n),
{
    reveal(scaled);
    reveal(scaled_millionth);
    let limit = DOUBLE_LIMIT as nat;
    lemma_rounded_grows(n as nat, larger_n as nat, 1, limit);
    let (x, y) = (rounded(n as nat, 1, limit), rounded(larger_n as nat, 1, limit));
    assert(gain as nat * x <= larger_gain as nat * y) by (nonlinear_arith)
        requires
            gain <= larger_gain,
            x <= y,
    ;
    lemma_rounded_grows(gain as nat * x, larger_gain as nat * y, 1, limit);
    let (p, q) = (product(gain, n), product(larger_gain, larger_n));
    assert(p <= q);
    lemma_rounded_grows(
        p * 0x200_0000_0000_0000_0000,
        q * 0x200_0000_0000_0000_0000,
        1_000_000,
        limit,
    );
    let (a, b) = (
        rounded(p * 0x200_0000_0000_0000_0000, 1_000_000, limit),
        rounded(q * 0x200_0000_0000_0000_0000, 1_000_000, limit),
    );
    assert(0x200_0000_0000_0000_0000 * UNIT_GAIN as nat == 0x4_0000_0000_0000_0000_0000_0000);
    assert(a / 0x4_0000_0000_0000_0000_0000_0000 <= b / 0x4_0000_0000_0000_0000_0000_0000);
}

/// A gain lies below a number exactly where it does without rounding; so every gain
/// lies below 128.
pub proof fn law_comparison_is_exact(gain: u32, n: u64)
    ensures
        below_single(gain, n) <==> gain < n * 0x0200_0000,
        n >= 128 ==> below_single(gain, n),
{
    reveal(below_single);
    let unit = spacing(n as nat, SINGLE_LIMIT as nat);
    assert(n as nat / 1 == n as nat);
    if n < SINGLE_LIMIT {
        assert(1 * unit == 1);
        assert(nearest_even(n as nat, 1) == n as nat);
    } else {
        lemma_spacing_fills(n as nat, SINGLE_LIMIT as nat);
        let near = nearest_even(n as nat, 1 * unit);
        assert(near >= n as nat / unit);
        assert(near * unit >= SINGLE_LIMIT / 2 * 2) by (nonlinear_arith)
            requires
                near >= SINGLE_LIMIT / 2,
                unit >= 2,
        ;
    }
}

} // verus!
