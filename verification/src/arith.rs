//! Small arithmetic helpers that mean the same in code and in contracts.

use vstd::prelude::*;

verus! {

/// The larger of two values.
#[verifier::allow_in_spec]
pub fn larger(a: u64, b: u64) -> u64
    returns
        (if a >= b {
            a
        } else {
            b
        }),
{
    if a >= b {
        a
    } else {
        b
    }
}

/// The smaller of two values.
#[verifier::allow_in_spec]
pub fn smaller(a: u64, b: u64) -> u64
    returns
        (if a <= b {
            a
        } else {
            b
        }),
{
    if a <= b {
        a
    } else {
        b
    }
}

/// The product of two values, or `u64::MAX` where it does not fit.
#[verifier::allow_in_spec]
pub fn saturating_product(a: u64, b: u64) -> u64
    returns
        (if a * b > u64::MAX {
            u64::MAX
        } else {
            (a * b) as u64
        }),
{
    assert(0 <= a * b <= 0xffff_ffff_ffff_ffff * 0xffff_ffff_ffff_ffff) by (nonlinear_arith)
        requires
            0 <= a <= 0xffff_ffff_ffff_ffff,
            0 <= b <= 0xffff_ffff_ffff_ffff,
    ;
    let product: u128 = (a as u128) * (b as u128);
    if product > 0xffff_ffff_ffff_ffff {
        u64::MAX
    } else {
        product as u64
    }
}

} // verus!
