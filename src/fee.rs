//! Trading fees.
use vstd::prelude::*;
use crate::types::{Balance, Fee};
use vstd::arithmetic::div_mod::{lemma_div_is_ordered, lemma_div_multiples_vanish};

verus! {

/// Numerator of the discounted fee rate.
pub const DISCOUNT_FEE_NUMERATOR: u32 = 7;

/// Denominator of the discounted fee rate.
pub const DISCOUNT_FEE_DENOMINATOR: u32 = 10000;

/// The fee on `amount` at rate `fee`, or `None` where it cannot be computed
/// (the product overflows, or the denominator is zero).
pub open spec fn fee_of(amount: nat, fee: Fee) -> Option<nat> {
    if fee.denominator == 0 || amount * (fee.numerator as nat) > u128::MAX {
        None
    } else {
        Some((amount * (fee.numerator as nat) / (fee.denominator as nat)) as nat)
    }
}

/// The discounted rate.
pub open spec fn discount_fee() -> Fee {
    Fee { numerator: DISCOUNT_FEE_NUMERATOR, denominator: DISCOUNT_FEE_DENOMINATOR }
}

/// The fee on `amount`: `amount * numerator / denominator`, rounded down.
pub fn just_fee(amount: Balance, fee: Fee) -> (r: Option<Balance>)
    ensures
        r matches Some(f) ==> fee_of(amount as nat, fee) == Some(f as nat),
        r is None ==> fee_of(amount as nat, fee) is None,
{
    let num = fee.numerator as u128;
    let den = fee.denominator as u128;
    match amount.checked_mul(num) {
        Some(p) => {
            if den == 0 {
                None
            } else {
                Some(p / den)
            }
        },
        None => None,
    }
}

/// The fee on `amount` at the discounted rate.
pub fn discounted_fee(amount: Balance) -> (r: Option<Balance>)
    ensures
        r matches Some(f) ==> fee_of(amount as nat, discount_fee()) == Some(f as nat),
        r is None ==> fee_of(amount as nat, discount_fee()) is None,
{
    just_fee(amount, Fee { numerator: DISCOUNT_FEE_NUMERATOR, denominator: DISCOUNT_FEE_DENOMINATOR })
}

/// The trading fee on `amount` and the part of it that is paid in the
/// reference asset: with a discount, the discounted fee, paid in both
/// ways; without, the fee at `rate` and nothing in the reference asset.
pub open spec fn fees_of(amount: nat, discount: bool, rate: Fee) -> Option<(nat, nat)> {
    if discount {
        match fee_of(amount, discount_fee()) {
            Some(f) => Some((f, f)),
            None => None,
        }
    } else {
        match fee_of(amount, rate) {
            Some(f) => Some((f, 0)),
            None => None,
        }
    }
}

/// The trading fee on `amount`; `hdx_fee` receives the amount to charge in
/// the reference asset.
pub fn calculate_fees(amount: Balance, discount: bool, rate: Fee, hdx_fee: &mut Balance) -> (r: Result<Balance, crate::types::Error>)
    ensures
        match fees_of(amount as nat, discount, rate) {
            Some((f, h)) => r == Ok::<Balance, crate::types::Error>(f as Balance) && *final(hdx_fee) as nat == h,
            None => r == Err::<Balance, crate::types::Error>(crate::types::Error::FeeAmountInvalid)
                && *final(hdx_fee) == if discount { *old(hdx_fee) } else { 0 },
        },
{
    if discount {
        match discounted_fee(amount) {
            Some(f) => {
                *hdx_fee = f;
                Ok(f)
            },
            None => Err(crate::types::Error::FeeAmountInvalid),
        }
    } else {
        *hdx_fee = 0;
        match just_fee(amount, rate) {
            Some(f) => Ok(f),
            None => Err(crate::types::Error::FeeAmountInvalid),
        }
    }
}

/// A fee at a rate of at most one is at most the amount.
pub proof fn lemma_fees_at_most(amount: nat, discount: bool, rate: Fee)
    requires
        rate.numerator <= rate.denominator,
    ensures
        fees_of(amount, discount, rate) matches Some((f, h)) ==> f <= amount && h <= amount,
{
    let fee = if discount { discount_fee() } else { rate };
    if fee.denominator > 0 {
        let n = fee.numerator as int;
        let d = fee.denominator as int;
        assert(amount * n <= d * amount) by (nonlinear_arith)
            requires
                n <= d,
                amount >= 0,
        ;
        lemma_div_is_ordered(amount * n, d * amount, d);
        lemma_div_multiples_vanish(amount as int, d);
    }
}

} // verus!
