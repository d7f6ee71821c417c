//! The constant-product formulas, computed by `hydra_dx_math::xyk`.
use vstd::prelude::*;
use crate::types::Balance;

verus! {

#[verifier::external_type_specification]
#[verifier::external_body]
pub struct ExMathError(hydra_dx_math::MathError);

/// Spot price of `amount` of the selling asset: `out_reserve * amount / in_reserve`.
pub open spec fn spot_price_of(in_reserve: nat, out_reserve: nat, amount: nat) -> nat {
    out_reserve * amount / in_reserve
}

/// Amount received for `amount_in`: `out_reserve * amount_in / (in_reserve + amount_in)`.
pub open spec fn out_given_in_of(in_reserve: nat, out_reserve: nat, amount_in: nat) -> nat {
    if amount_in == 0 {
        0
    } else {
        out_reserve * amount_in / (in_reserve + amount_in)
    }
}

/// Amount to pay for `amount_out`, rounded up by one: `in_reserve * amount_out /
/// (out_reserve - amount_out) + 1`; `None` where `amount_out` is not below the reserve.
pub open spec fn in_given_out_of(out_reserve: nat, in_reserve: nat, amount_out: nat) -> Option<nat> {
    if amount_out == 0 {
        Some(0)
    } else if amount_out >= out_reserve {
        None
    } else {
        Some(in_reserve * amount_out / (out_reserve - amount_out) as nat + 1)
    }
}

/// Amount of the second asset that goes with `amount` of the first: `amount * b_reserve / a_reserve`.
pub open spec fn liquidity_in_of(a_reserve: nat, b_reserve: nat, amount: nat) -> nat {
    amount * b_reserve / a_reserve
}

/// Share `amount / total` of a reserve, rounded down.
pub open spec fn liquidity_out_of(reserve: nat, amount: nat, total: nat) -> nat {
    amount * reserve / total
}

/// Relies on `hydra_dx_math::xyk::calculate_spot_price`: fails on a zero
/// `in_reserve` or a result beyond `u128`, else returns the formula's value.
#[verifier::external_body]
pub(crate) fn calculate_spot_price(in_reserve: Balance, out_reserve: Balance, amount: Balance) -> (r: Result<Balance, hydra_dx_math::MathError>)
    ensures
        r is Ok <==> (in_reserve != 0 && spot_price_of(in_reserve as nat, out_reserve as nat, amount as nat) <= u128::MAX),
        r matches Ok(v) ==> v as nat == spot_price_of(in_reserve as nat, out_reserve as nat, amount as nat),
{
    hydra_dx_math::xyk::calculate_spot_price(in_reserve, out_reserve, amount)
}

/// Relies on `hydra_dx_math::xyk::calculate_out_given_in`: computed in 256 bits,
/// it never fails and returns the formula's value.
#[verifier::external_body]
pub(crate) fn calculate_out_given_in(in_reserve: Balance, out_reserve: Balance, amount_in: Balance) -> (r: Result<Balance, hydra_dx_math::MathError>)
    ensures
        r is Ok,
        r matches Ok(v) ==> v as nat == out_given_in_of(in_reserve as nat, out_reserve as nat, amount_in as nat),
{
    hydra_dx_math::xyk::calculate_out_given_in(in_reserve, out_reserve, amount_in)
}

/// Relies on `hydra_dx_math::xyk::calculate_in_given_out`: fails where
/// `amount_out` reaches the reserve or the result is beyond `u128`.
#[verifier::external_body]
pub(crate) fn calculate_in_given_out(out_reserve: Balance, in_reserve: Balance, amount_out: Balance) -> (r: Result<Balance, hydra_dx_math::MathError>)
    ensures
        r is Ok <==> (in_given_out_of(out_reserve as nat, in_reserve as nat, amount_out as nat) matches Some(v) && v <= u128::MAX),
        r matches Ok(v) ==> in_given_out_of(out_reserve as nat, in_reserve as nat, amount_out as nat) == Some(v as nat),
{
    hydra_dx_math::xyk::calculate_in_given_out(out_reserve, in_reserve, amount_out)
}

/// Relies on `hydra_dx_math::xyk::calculate_liquidity_in`: fails on a zero
/// `a_reserve` or a result beyond `u128`.
#[verifier::external_body]
pub(crate) fn calculate_liquidity_in(a_reserve: Balance, b_reserve: Balance, amount: Balance) -> (r: Result<Balance, hydra_dx_math::MathError>)
    ensures
        r is Ok <==> (a_reserve != 0 && liquidity_in_of(a_reserve as nat, b_reserve as nat, amount as nat) <= u128::MAX),
        r matches Ok(v) ==> v as nat == liquidity_in_of(a_reserve as nat, b_reserve as nat, amount as nat),
{
    hydra_dx_math::xyk::calculate_liquidity_in(a_reserve, b_reserve, amount)
}

/// Relies on `hydra_dx_math::xyk::calculate_liquidity_out`: fails on a zero
/// `total` or a share beyond `u128`, else returns each reserve's share.
#[verifier::external_body]
pub(crate) fn calculate_liquidity_out(a_reserve: Balance, b_reserve: Balance, amount: Balance, total: Balance) -> (r: Result<(Balance, Balance), hydra_dx_math::MathError>)
    ensures
        r is Ok <==> (total != 0 && liquidity_out_of(a_reserve as nat, amount as nat, total as nat) <= u128::MAX
            && liquidity_out_of(b_reserve as nat, amount as nat, total as nat) <= u128::MAX),
        r matches Ok((x, y)) ==> x as nat == liquidity_out_of(a_reserve as nat, amount as nat, total as nat)
            && y as nat == liquidity_out_of(b_reserve as nat, amount as nat, total as nat),
{
    hydra_dx_math::xyk::calculate_liquidity_out(a_reserve, b_reserve, amount, total)
}

} // verus!
