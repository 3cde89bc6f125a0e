//! Shares are rounded down, and amounts stop at the ends of their range.
use crate::amounts::{
    saturated, saturating_add, saturating_mul, saturating_sub, share, share_of,
};
use crate::env::Env;
use crate::escrow::effective_fee_bps;
use vstd::prelude::*;

verus! {

/// Sums, differences and products are exact where they are in the range of amounts, and
/// stop at its nearest end where they are not.
pub proof fn law_amounts_stop_at_their_ends(
    a: i128,
    b: i128,
    sum: i128,
    difference: i128,
    product: i128,
)
    requires
        call_ensures(saturating_add, (a, b), sum),
        call_ensures(saturating_sub, (a, b), difference),
        call_ensures(saturating_mul, (a, b), product),
    ensures
        i128::MIN <= a + b <= i128::MAX ==> sum == a + b,
        a + b > i128::MAX ==> sum == i128::MAX,
        a + b < i128::MIN ==> sum == i128::MIN,
        i128::MIN <= a - b <= i128::MAX ==> difference == a - b,
        a - b > i128::MAX ==> difference == i128::MAX,
        a - b < i128::MIN ==> difference == i128::MIN,
        i128::MIN <= a * b <= i128::MAX ==> product == a * b,
        a * b > i128::MAX ==> product == i128::MAX,
        a * b < i128::MIN ==> product == i128::MIN,
{
}

/// A share is the largest amount that, taken once for each part of the whole, does not
/// come to more than the amount does, taken once for each of its parts: less than one is
/// lost. Where that product is out of range the end of the range stands for it, and of
/// nothing there is no share.
pub proof fn law_share_is_rounded_down(amount: i128, part: i128, whole: i128, r: i128)
    requires
        whole > 0,
        call_ensures(share_of, (amount, part, whole), r),
    ensures
        amount <= 0 || part <= 0 ==> r == 0,
        amount > 0 && part > 0 && amount * part <= i128::MAX ==> whole * r <= amount * part < whole
            * r + whole,
        amount > 0 && part > 0 && amount * part > i128::MAX ==> whole * r <= i128::MAX < whole * r
            + whole,
{
    lemma_share_floor(amount as int, part as int, whole as int);
}

/// What a share comes to, between the two whole numbers around it.
pub proof fn lemma_share_floor(amount: int, part: int, whole: int)
    requires
        0 < whole,
    ensures
        amount <= 0 || part <= 0 ==> share(amount, part, whole) == 0,
        amount > 0 && part > 0 ==> amount * part > 0,
        amount > 0 && part > 0 && amount * part <= i128::MAX ==> whole * share(amount, part, whole)
            <= amount * part < whole * share(amount, part, whole) + whole,
        amount > 0 && part > 0 && amount * part > i128::MAX ==> whole * share(amount, part, whole)
            <= i128::MAX < whole * share(amount, part, whole) + whole,
{
    if amount > 0 && part > 0 {
        assert(amount * part > 0) by (nonlinear_arith)
            requires
                amount > 0,
                part > 0,
        ;
        let product = saturated(amount * part) as int;
        assert(0 <= product / whole <= product && whole * (product / whole) <= product < whole * (
        product / whole) + whole) by (nonlinear_arith)
            requires
                product > 0,
                whole > 0,
        ;
    }
}

/// The fee rate of an event is its own where it has one, be it higher or lower than the
/// platform's, and the platform's where it has none.
pub proof fn law_own_fee_rate_goes_first(env: &Env, bps: u32, own: u32, general: u32)
    requires
        call_ensures(effective_fee_bps, (env, Some(bps)), own),
        call_ensures(effective_fee_bps, (env, None), general),
    ensures
        own == bps,
        general == env@.settings.fee_bps,
{
}

} // verus!
