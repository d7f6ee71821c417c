//! What holds of the engine over every input.
use vstd::prelude::*;
use vstd::arithmetic::div_mod::{
    lemma_div_is_ordered, lemma_div_multiples_vanish, lemma_fundamental_div_mod, lemma_mod_pos_bound,
};
use crate::account::{ordered, pair_account, share_token_name};
use crate::amm::{
    PalletView, add_liquidity_of, bal, create_pool_of, has_pool, initial_amount_b, pool_wf,
    remove_liquidity_of, sell_of, state_wf, validate_sell_of,
};
use crate::math::{liquidity_out_of, out_given_in_of};
use crate::registry::get_or_create_of;
use crate::types::{AssetId, AssetPair, Error, Price};

verus! {

/// More in never gives less out.
pub proof fn lemma_out_given_in_monotonic(reserve_in: nat, reserve_out: nat, x: nat, y: nat)
    requires
        x <= y,
    ensures
        out_given_in_of(reserve_in, reserve_out, x) <= out_given_in_of(reserve_in, reserve_out, y),
{
    if x > 0 {
        let n = (reserve_out * x) as int;
        let dx = (reserve_in + x) as int;
        let dy = (reserve_in + y) as int;
        let q = n / dx;
        lemma_fundamental_div_mod(n, dx);
        lemma_mod_pos_bound(n, dx);
        assert(q * dx <= n);
        assert(q >= 0) by {
            lemma_div_is_ordered(0, n, dx);
        }
        assert(q <= reserve_out) by (nonlinear_arith)
            requires
                q * dx <= n,
                n == reserve_out * x,
                x <= dx,
                x > 0,
                q >= 0,
        ;
        assert(dy * q <= reserve_out * y) by (nonlinear_arith)
            requires
                q * dx <= reserve_out * x,
                q <= reserve_out,
                dy - dx == y - x,
                y >= x,
                q >= 0,
        ;
        lemma_div_is_ordered(dy * q, (reserve_out * y) as int, dy);
        lemma_div_multiples_vanish(q, dy);
    }
}

/// Total claim supply of the pool at `acct`; zero where there is none.
pub open spec fn supply(s: PalletView, acct: Seq<u8>) -> nat {
    if s.pools.contains_key(acct) {
        s.pools[acct].total_liquidity as nat
    } else {
        0
    }
}

/// The pool of `a` and `b` exists and is registered with exactly these two assets.
pub open spec fn is_pool_of(s: PalletView, a: AssetId, b: AssetId) -> bool {
    &&& has_pool(s, a, b)
    &&& ordered(s.pools[pair_account(a, b)].asset_a, s.pools[pair_account(a, b)].asset_b) == ordered(a, b)
}

/// The account of an existing pool is 32 bytes long, so an account of any
/// other length is never a pool's.
pub proof fn lemma_pool_account_len(s: PalletView, a: AssetId, b: AssetId)
    requires
        state_wf(s),
        has_pool(s, a, b),
    ensures
        pair_account(a, b).len() == 32,
{
    assert(pool_wf(s, pair_account(a, b), s.pools[pair_account(a, b)]));
}

/// A share `amount / total` of a reserve is at most the reserve, and all of it
/// when `amount == total`.
pub proof fn lemma_liquidity_out_bounded(reserve: nat, amount: nat, total: nat)
    requires
        0 < total,
        amount <= total,
    ensures
        liquidity_out_of(reserve, amount, total) <= reserve,
        amount == total ==> liquidity_out_of(reserve, amount, total) == reserve,
{
    assert(amount * reserve <= total * reserve) by (nonlinear_arith)
        requires
            amount <= total,
    ;
    lemma_div_is_ordered((amount * reserve) as int, (total * reserve) as int, total as int);
    lemma_div_multiples_vanish(reserve as int, total as int);
    assert(total * reserve == total as int * reserve as int);
}

/// A sell that goes through puts `amount` into the pool's reserve of the
/// asset sold and takes what the seller receives out of its reserve of the
/// other asset, and the seller's balances move the other way (beside the
/// reference-asset fee of a discount); the seller receives no more than the
/// constant-product formula gives without any fee.
pub proof fn lemma_sell_conservation(s: PalletView, who: Seq<u8>, assets: AssetPair, amount: nat, min_bought: nat, discount: bool)
    requires
        s.config.wf(),
        assets.asset_in != assets.asset_out,
        who != pair_account(assets.asset_in, assets.asset_out),
        sell_of(s, who, assets, amount, min_bought, discount) is Ok,
    ensures
        ({
            let acct = pair_account(assets.asset_in, assets.asset_out);
            let hdx = s.config.hdx_asset_id;
            let received = validate_sell_of(s, who, assets, amount, min_bought, discount)->Ok_0.0;
            let after = sell_of(s, who, assets, amount, min_bought, discount)->Ok_0;
            &&& bal(after, assets.asset_in, acct) == bal(s, assets.asset_in, acct) + amount
            &&& bal(after, assets.asset_out, acct) + received == bal(s, assets.asset_out, acct)
            &&& received <= out_given_in_of(bal(s, assets.asset_in, acct), bal(s, assets.asset_out, acct), amount)
            &&& (!discount || (hdx != assets.asset_in && hdx != assets.asset_out)) ==> {
                &&& bal(after, assets.asset_in, who) + amount == bal(s, assets.asset_in, who)
                &&& bal(after, assets.asset_out, who) == bal(s, assets.asset_out, who) + received
            }
        }),
{
    let acct = pair_account(assets.asset_in, assets.asset_out);
    crate::fee::lemma_fees_at_most(amount, discount, s.config.exchange_fee);
    let fees = crate::fee::fees_of(amount, discount, s.config.exchange_fee)->Some_0;
    lemma_out_given_in_monotonic(
        bal(s, assets.asset_in, acct),
        bal(s, assets.asset_out, acct),
        (amount - fees.0) as nat,
        amount,
    );
}

/// Adding liquidity mints exactly the anchor amount (that of the smaller
/// asset identifier) to the provider and raises the pool's claim supply by
/// it; the pool's reserves grow by the deposited amounts.
pub proof fn lemma_add_liquidity_supply(s: PalletView, who: Seq<u8>, a: AssetId, b: AssetId, amount_a: nat, limit: nat)
    requires
        state_wf(s),
        is_pool_of(s, a, b),
        who != pair_account(a, b),
        add_liquidity_of(s, who, a, b, amount_a, limit) is Ok,
    ensures
        ({
            let acct = pair_account(a, b);
            let token = s.pools[acct].share_token;
            let after = add_liquidity_of(s, who, a, b, amount_a, limit)->Ok_0;
            let amount_b = (bal(after, b, acct) - bal(s, b, acct)) as nat;
            let shares = if a < b { amount_a } else { amount_b };
            &&& supply(after, acct) == supply(s, acct) + shares
            &&& bal(after, token, who) == bal(s, token, who) + shares
            &&& bal(after, a, acct) == bal(s, a, acct) + amount_a
            &&& bal(after, b, acct) >= bal(s, b, acct)
        }),
{
    assert(pool_wf(s, pair_account(a, b), s.pools[pair_account(a, b)]));
}

/// Adding liquidity and then removing the shares it minted succeeds where
/// no balance of the provider could pass `u128` on the way, and leaves the
/// pool in place with its claim supply and the provider's claim tokens as
/// they were.
pub proof fn lemma_add_remove_round_trip(s: PalletView, who: Seq<u8>, a: AssetId, b: AssetId, amount_a: nat, limit: nat)
    requires
        state_wf(s),
        is_pool_of(s, a, b),
        who != pair_account(a, b),
        bal(s, a, who) + bal(s, a, pair_account(a, b)) <= u128::MAX,
        bal(s, b, who) + bal(s, b, pair_account(a, b)) <= u128::MAX,
        add_liquidity_of(s, who, a, b, amount_a, limit) is Ok,
    ensures
        ({
            let acct = pair_account(a, b);
            let token = s.pools[acct].share_token;
            let mid = add_liquidity_of(s, who, a, b, amount_a, limit)->Ok_0;
            let shares = (supply(mid, acct) - supply(s, acct)) as nat;
            let after = remove_liquidity_of(mid, who, a, b, shares);
            &&& after is Ok
            &&& supply(after->Ok_0, acct) == supply(s, acct)
            &&& has_pool(after->Ok_0, a, b)
            &&& bal(after->Ok_0, token, who) == bal(s, token, who)
        }),
{
    let acct = pair_account(a, b);
    assert(pool_wf(s, acct, s.pools[acct]));
    let mid = add_liquidity_of(s, who, a, b, amount_a, limit)->Ok_0;
    let shares = (supply(mid, acct) - supply(s, acct)) as nat;
    let total = mid.pools[acct].total_liquidity as nat;
    lemma_liquidity_out_bounded(bal(mid, a, acct), shares, total);
    lemma_liquidity_out_bounded(bal(mid, b, acct), shares, total);
}

/// Removing every outstanding share of a pool succeeds where no balance of
/// the provider could pass `u128`, and destroys the pool: it no longer
/// exists, its reserves are emptied, adding liquidity to it is refused as to
/// a missing pool, creating it is no longer refused as existing, and its
/// claim token stays registered under the same name, so that creating it
/// again reuses that token.
pub proof fn lemma_remove_all_destroys(s: PalletView, who: Seq<u8>, a: AssetId, b: AssetId)
    requires
        state_wf(s),
        is_pool_of(s, a, b),
        who != pair_account(a, b),
        bal(s, s.pools[pair_account(a, b)].share_token, who) >= supply(s, pair_account(a, b)),
        bal(s, a, who) + bal(s, a, pair_account(a, b)) <= u128::MAX,
        bal(s, b, who) + bal(s, b, pair_account(a, b)) <= u128::MAX,
    ensures
        ({
            let acct = pair_account(a, b);
            let r = remove_liquidity_of(s, who, a, b, supply(s, acct));
            let after = r->Ok_0;
            &&& r is Ok
            &&& !has_pool(after, a, b)
            &&& bal(after, a, acct) == 0
            &&& bal(after, b, acct) == 0
            &&& forall|x: nat, y: nat| #[trigger] add_liquidity_of(after, who, a, b, x, y) == Err::<PalletView, Error>(Error::TokenPoolNotFound)
            &&& forall|x: nat, p: Price| #[trigger] create_pool_of(after, who, a, b, x, p) != Err::<PalletView, Error>(Error::TokenPoolAlreadyExists)
            &&& after.registry == s.registry
            &&& get_or_create_of(after.registry, share_token_name(a, b)) == get_or_create_of(s.registry, share_token_name(a, b))
        }),
{
    let acct = pair_account(a, b);
    assert(pool_wf(s, acct, s.pools[acct]));
    let total = supply(s, acct);
    lemma_liquidity_out_bounded(bal(s, a, acct), total, total);
    lemma_liquidity_out_bounded(bal(s, b, acct), total, total);
}

/// Creating a pool whose account holds nothing starts it afresh: its claim
/// supply is the shares minted and its reserves are the two deposits.
pub proof fn lemma_create_starts_afresh(s: PalletView, who: Seq<u8>, a: AssetId, b: AssetId, amount: nat, price: Price)
    requires
        who != pair_account(a, b),
        bal(s, a, pair_account(a, b)) == 0,
        bal(s, b, pair_account(a, b)) == 0,
        create_pool_of(s, who, a, b, amount, price) is Ok,
    ensures
        ({
            let acct = pair_account(a, b);
            let after = create_pool_of(s, who, a, b, amount, price)->Ok_0;
            &&& has_pool(after, a, b)
            &&& supply(after, acct) == if a < b { amount } else { initial_amount_b(amount, price) }
            &&& bal(after, a, acct) == amount
            &&& bal(after, b, acct) == initial_amount_b(amount, price)
        }),
{
}

/// A sell of more than `reserve_in / max_in_ratio` is refused with
/// `MaxInRatioExceeded` once the checks before it pass (the seller holds the
/// amount, the pool exists, and so does the discount pool where asked for).
pub proof fn lemma_sell_ratio_guard(s: PalletView, who: Seq<u8>, assets: AssetPair, amount: nat, min_bought: nat, discount: bool)
    requires
        s.config.wf(),
        bal(s, assets.asset_in, who) >= amount,
        has_pool(s, assets.asset_in, assets.asset_out),
        discount ==> has_pool(s, assets.asset_in, s.config.hdx_asset_id),
        amount > bal(s, assets.asset_in, pair_account(assets.asset_in, assets.asset_out)) / (s.config.max_in_ratio as nat),
    ensures
        sell_of(s, who, assets, amount, min_bought, discount) == Err::<PalletView, Error>(Error::MaxInRatioExceeded),
{
}

} // verus!
