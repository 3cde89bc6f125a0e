//! Saturating arithmetic on token amounts.
use vstd::prelude::*;

verus! {

/// The value of `i128` nearest to `x`.
pub open spec fn saturated(x: int) -> i128 {
    if x > i128::MAX {
        i128::MAX
    } else if x < i128::MIN {
        i128::MIN
    } else {
        x as i128
    }
}

pub fn saturating_add(a: i128, b: i128) -> (r: i128)
    ensures
        r == saturated(a + b),
{
    match a.checked_add(b) {
        Some(sum) => sum,
        None => if b < 0 {
            i128::MIN
        } else {
            i128::MAX
        },
    }
}

pub fn saturating_sub(a: i128, b: i128) -> (r: i128)
    ensures
        r == saturated(a - b),
{
    match a.checked_sub(b) {
        Some(difference) => difference,
        None => if b < 0 {
            i128::MAX
        } else {
            i128::MIN
        },
    }
}

pub fn saturating_mul(a: i128, b: i128) -> (r: i128)
    ensures
        r == saturated(a * b),
{
    match a.checked_mul(b) {
        Some(product) => product,
        None => {
            assert(a < 0 && b < 0 ==> a * b > 0) by (nonlinear_arith);
            assert(a >= 0 && b >= 0 ==> a * b >= 0) by (nonlinear_arith);
            assert(a < 0 && b >= 0 ==> a * b <= 0) by (nonlinear_arith);
            assert(a >= 0 && b < 0 ==> a * b <= 0) by (nonlinear_arith);
            if (a < 0) == (b < 0) {
                i128::MAX
            } else {
                i128::MIN
            }
        },
    }
}

/// The share of `amount` that `part` out of `whole` stands for, rounded down: the
/// product is capped at the largest amount, and nothing is a share of nothing.
pub open spec fn share(amount: int, part: int, whole: int) -> i128 {
    if amount <= 0 || part <= 0 {
        0
    } else {
        (saturated(amount * part) as int / whole) as i128
    }
}

pub fn share_of(amount: i128, part: i128, whole: i128) -> (r: i128)
    requires
        whole > 0,
    ensures
        r == share(amount as int, part as int, whole as int),
        0 <= r,
{
    if amount <= 0 || part <= 0 {
        return 0;
    }
    assert(amount * part > 0) by (nonlinear_arith)
        requires
            amount > 0,
            part > 0,
    ;
    let product: i128 = saturating_mul(amount, part);
    let quotient: i128 = product / whole;
    assert(0 <= product as int / whole as int <= product) by (nonlinear_arith)
        requires
            product >= 0,
            whole > 0,
    ;
    quotient
}

} // verus!
