//! The pool engine: pool creation, liquidity and swaps.
use vstd::prelude::*;
use crate::account::{AssetPairAccountId, pair_account, share_token_name, share_token_name_of};
use crate::fee::{calculate_fees, fees_of};
use crate::ledger::{Balances, Ledger, LedgerOp, op_result, transferred, withdrawn, deposited};
use crate::math::{
    calculate_in_given_out, calculate_liquidity_in, calculate_liquidity_out, calculate_out_given_in,
    calculate_spot_price, in_given_out_of, liquidity_in_of, liquidity_out_of, out_given_in_of,
    spot_price_of,
};
use crate::registry::{AssetRegistry, RegistryView, get_or_create_of};
use crate::store::{ByteMap, copy_bytes};
use crate::types::{
    AMMTransfer, AccountId, AssetId, AssetPair, Balance, Config, Error, Event, EventView, PoolInfo,
    Price, price_mul,
};

verus! {

/// The engine: its settings, the ledger, the pools (by account) and the
/// claim-token registry.
pub struct Pallet {
    config: Config,
    ledger: Ledger,
    pools: ByteMap<PoolInfo>,
    asset_registry: AssetRegistry,
    first_share_token: AssetId,
    events: Vec<Event>,
}

/// The abstract state of a [`Pallet`].
pub struct PalletView {
    pub config: Config,
    pub balances: Balances,
    pub pools: Map<Seq<u8>, PoolInfo>,
    pub registry: RegistryView,
    /// Claim tokens get identifiers from this one on.
    pub first_share_token: AssetId,
    /// Notifications of committed changes, oldest first.
    pub events: Seq<EventView>,
}

impl View for Pallet {
    type V = PalletView;

    closed spec fn view(&self) -> PalletView {
        PalletView {
            config: self.config,
            balances: self.ledger@,
            pools: self.pools@,
            registry: self.asset_registry@,
            first_share_token: self.first_share_token,
            events: self.events@.map_values(|e: Event| e@),
        }
    }
}

/// What `who` holds of `asset` in state `s`.
pub open spec fn bal(s: PalletView, asset: AssetId, who: Seq<u8>) -> nat {
    s.balances[(asset, who)]
}

/// Whether the pool of `a` and `b` exists in `s`.
pub open spec fn has_pool(s: PalletView, a: AssetId, b: AssetId) -> bool {
    s.pools.contains_key(pair_account(a, b))
}

/// `r` and the state `after` are what `outcome` says: its state on success,
/// its error and no change on failure.
pub open spec fn outcome<T>(r: Result<T, Error>, before: PalletView, after: PalletView, expected: Result<PalletView, Error>) -> bool {
    match expected {
        Ok(s) => r is Ok && after == s,
        Err(e) => r matches Err(e2) && e2 == e && after == before,
    }
}

/// `s` with new balances, where the ledger changes went through.
pub open spec fn with_balances(s: PalletView, r: Result<Balances, Error>) -> Result<PalletView, Error> {
    match r {
        Ok(m) => Ok(PalletView { balances: m, ..s }),
        Err(e) => Err(e),
    }
}

/// Endowing `who` with `amount` of `asset`, which must not be a claim token.
pub open spec fn endow_of(s: PalletView, asset: AssetId, who: Seq<u8>, amount: nat) -> Result<PalletView, Error> {
    if asset >= s.first_share_token {
        Err(Error::ShareTokenNotEndowable)
    } else {
        with_balances(s, deposited(s.balances, asset, who, amount))
    }
}

/// The second asset's initial amount: `amount * price`, rounded down.
pub open spec fn initial_amount_b(amount: nat, price: Price) -> nat {
    price_mul(price, amount)
}

/// Creating the pool of `a` and `b` with `amount` of `a` at `price` (of `a` in `b`).
pub open spec fn create_pool_of(s: PalletView, who: Seq<u8>, a: AssetId, b: AssetId, amount: nat, price: Price) -> Result<PalletView, Error> {
    let acct = pair_account(a, b);
    let amount_b = initial_amount_b(amount, price);
    let shares = if a < b { amount } else { amount_b };
    if amount == 0 {
        Err(Error::CannotCreatePoolWithZeroLiquidity)
    } else if price.inner == 0 {
        Err(Error::CannotCreatePoolWithZeroInitialPrice)
    } else if a == b {
        Err(Error::CannotCreatePoolWithSameAssets)
    } else if has_pool(s, a, b) {
        Err(Error::TokenPoolAlreadyExists)
    } else if price_mul(price, amount) > u128::MAX {
        Err(Error::CreatePoolAssetAmountInvalid)
    } else if shares == 0 {
        Err(Error::InvalidMintedLiquidity)
    } else if bal(s, a, who) < amount || bal(s, b, who) < amount_b {
        Err(Error::InsufficientAssetBalance)
    } else {
        match get_or_create_of(s.registry, share_token_name(a, b)) {
            Err(e) => Err(e),
            Ok((token, registry)) => if token == a || token == b {
                Err(Error::ShareTokenIsPoolAsset)
            } else {
                match deposited_after_two(s.balances, a, b, who, acct, amount, amount_b, token, shares) {
                Err(e) => Err(e),
                Ok(m) => Ok(PalletView {
                    config: s.config,
                    balances: m,
                    pools: s.pools.insert(acct, PoolInfo { asset_a: a, asset_b: b, share_token: token, total_liquidity: shares as Balance }),
                    registry,
                    first_share_token: s.first_share_token,
                    events: s.events.push(EventView::PoolCreated(who, a, b, shares as Balance)),
                }),
            }},
        }
    }
}

/// Balances after moving `amount_a` of `a` and `amount_b` of `b` from `who`
/// to `acct`, then creating `shares` of `token` on `who`.
pub open spec fn deposited_after_two(m: Balances, a: AssetId, b: AssetId, who: Seq<u8>, acct: Seq<u8>, amount_a: nat, amount_b: nat, token: AssetId, shares: nat) -> Result<Balances, Error> {
    match transferred(m, a, who, acct, amount_a) {
        Err(e) => Err(e),
        Ok(m1) => match transferred(m1, b, who, acct, amount_b) {
            Err(e) => Err(e),
            Ok(m2) => deposited(m2, token, who, shares),
        },
    }
}

/// Adding `amount_a` of `a` to the pool of `a` and `b`, with at most `limit` of `b`.
pub open spec fn add_liquidity_of(s: PalletView, who: Seq<u8>, a: AssetId, b: AssetId, amount_a: nat, limit: nat) -> Result<PalletView, Error> {
    let acct = pair_account(a, b);
    let pool = s.pools[acct];
    let reserve_a = bal(s, a, acct);
    let reserve_b = bal(s, b, acct);
    let amount_b = liquidity_in_of(reserve_a, reserve_b, amount_a);
    let shares = if a < b { amount_a } else { amount_b };
    if !has_pool(s, a, b) {
        Err(Error::TokenPoolNotFound)
    } else if amount_a == 0 || limit == 0 {
        Err(Error::CannotAddZeroLiquidity)
    } else if reserve_a == 0 || amount_b > u128::MAX {
        Err(Error::AddAssetAmountInvalid)
    } else if amount_b > limit {
        Err(Error::AssetBalanceLimitExceeded)
    } else if shares == 0 {
        Err(Error::InvalidMintedLiquidity)
    } else if pool.total_liquidity + shares > u128::MAX {
        Err(Error::InvalidLiquidityAmount)
    } else if bal(s, a, who) < amount_a || bal(s, b, who) < amount_b {
        Err(Error::InsufficientAssetBalance)
    } else {
        match deposited_after_two(s.balances, a, b, who, acct, amount_a, amount_b, pool.share_token, shares) {
            Err(e) => Err(e),
            Ok(m) => Ok(PalletView {
                balances: m,
                pools: s.pools.insert(acct, PoolInfo { total_liquidity: (pool.total_liquidity + shares) as Balance, ..pool }),
                events: s.events.push(EventView::LiquidityAdded(who, a, b, amount_a as Balance, amount_b as Balance)),
                ..s
            }),
        }
    }
}

/// Removing `amount` shares from the pool of `a` and `b`; the pool is
/// destroyed when no share is left.
pub open spec fn remove_liquidity_of(s: PalletView, who: Seq<u8>, a: AssetId, b: AssetId, amount: nat) -> Result<PalletView, Error> {
    let acct = pair_account(a, b);
    let pool = s.pools[acct];
    let total = pool.total_liquidity as nat;
    let reserve_a = bal(s, a, acct);
    let reserve_b = bal(s, b, acct);
    let out_a = liquidity_out_of(reserve_a, amount, total);
    let out_b = liquidity_out_of(reserve_b, amount, total);
    let left = (total - amount) as nat;
    if amount == 0 {
        Err(Error::CannotRemoveLiquidityWithZero)
    } else if !has_pool(s, a, b) {
        Err(Error::TokenPoolNotFound)
    } else if total < amount || bal(s, pool.share_token, who) < amount {
        Err(Error::InsufficientAssetBalance)
    } else if out_a > u128::MAX || out_b > u128::MAX {
        Err(Error::RemoveAssetAmountInvalid)
    } else if reserve_a < out_a || reserve_b < out_b {
        Err(Error::InsufficientPoolAssetBalance)
    } else {
        let moved = match transferred(s.balances, a, acct, who, out_a) {
            Err(e) => Err(e),
            Ok(m1) => match transferred(m1, b, acct, who, out_b) {
                Err(e) => Err(e),
                Ok(m2) => withdrawn(m2, pool.share_token, who, amount),
            },
        };
        match moved {
            Err(e) => Err(e),
            Ok(m) => Ok(PalletView {
                balances: m,
                pools: if left == 0 {
                    s.pools.remove(acct)
                } else {
                    s.pools.insert(acct, PoolInfo { total_liquidity: left as Balance, ..pool })
                },
                events: if left == 0 {
                    s.events.push(EventView::LiquidityRemoved(who, a, b, amount as Balance)).push(
                        EventView::PoolDestroyed(who, a, b),
                    )
                } else {
                    s.events.push(EventView::LiquidityRemoved(who, a, b, amount as Balance))
                },
                ..s
            }),
        }
    }
}

/// The fee to pay in the reference asset for a discount on a trade of
/// `asset`: `hdx_amount` of `asset` priced in the pool of `asset` and the
/// reference asset; nothing without a discount.
pub open spec fn discount_fee_of(s: PalletView, who: Seq<u8>, asset: AssetId, hdx_amount: nat, discount: bool) -> Result<nat, Error> {
    let hdx = s.config.hdx_asset_id;
    let hacct = pair_account(asset, hdx);
    let price = spot_price_of(bal(s, asset, hacct), bal(s, hdx, hacct), hdx_amount);
    if discount && hdx_amount > 0 {
        if bal(s, asset, hacct) == 0 || price > u128::MAX {
            Err(Error::CannotApplyDiscount)
        } else if bal(s, hdx, who) < price {
            Err(Error::InsufficientHDXBalance)
        } else {
            Ok(price)
        }
    } else {
        Ok(0)
    }
}

/// Validating a sell of `amount` of `asset_in`: the amount received and the
/// fee in the reference asset.
pub open spec fn validate_sell_of(s: PalletView, who: Seq<u8>, assets: AssetPair, amount: nat, min_bought: nat, discount: bool) -> Result<(nat, nat), Error> {
    let ain = assets.asset_in;
    let aout = assets.asset_out;
    let acct = pair_account(ain, aout);
    let reserve_in = bal(s, ain, acct);
    let reserve_out = bal(s, aout, acct);
    if bal(s, ain, who) < amount {
        Err(Error::InsufficientAssetBalance)
    } else if !has_pool(s, ain, aout) {
        Err(Error::TokenPoolNotFound)
    } else if discount && !has_pool(s, ain, s.config.hdx_asset_id) {
        Err(Error::CannotApplyDiscount)
    } else if amount > reserve_in / (s.config.max_in_ratio as nat) {
        Err(Error::MaxInRatioExceeded)
    } else {
        match fees_of(amount, discount, s.config.exchange_fee) {
            None => Err(Error::FeeAmountInvalid),
            Some((fee, hdx_amount)) => {
                let sale_price = out_given_in_of(reserve_in, reserve_out, (amount - fee) as nat);
                if reserve_out < sale_price {
                    Err(Error::InsufficientAssetBalance)
                } else if min_bought > sale_price {
                    Err(Error::AssetBalanceLimitExceeded)
                } else {
                    match discount_fee_of(s, who, ain, hdx_amount, discount) {
                        Err(e) => Err(e),
                        Ok(d) => Ok((sale_price, d)),
                    }
                }
            },
        }
    }
}

/// Validating a buy of `amount` of `asset_out`: the amount to pay and the
/// fee in the reference asset.
pub open spec fn validate_buy_of(s: PalletView, who: Seq<u8>, assets: AssetPair, amount: nat, max_limit: nat, discount: bool) -> Result<(nat, nat), Error> {
    let ain = assets.asset_in;
    let aout = assets.asset_out;
    let acct = pair_account(ain, aout);
    let reserve_in = bal(s, ain, acct);
    let reserve_out = bal(s, aout, acct);
    if !has_pool(s, ain, aout) {
        Err(Error::TokenPoolNotFound)
    } else if reserve_out <= amount {
        Err(Error::InsufficientPoolAssetBalance)
    } else if amount > reserve_out / (s.config.max_out_ratio as nat) {
        Err(Error::MaxOutRatioExceeded)
    } else if discount && !has_pool(s, aout, s.config.hdx_asset_id) {
        Err(Error::CannotApplyDiscount)
    } else {
        match fees_of(amount, discount, s.config.exchange_fee) {
            None => Err(Error::FeeAmountInvalid),
            Some((fee, hdx_amount)) => {
                if amount + fee > reserve_out {
                    Err(Error::InsufficientPoolAssetBalance)
                } else {
                    match in_given_out_of(reserve_out, reserve_in, amount + fee) {
                        None => Err(Error::BuyAssetAmountInvalid),
                        Some(buy_price) => {
                            if buy_price > u128::MAX {
                                Err(Error::BuyAssetAmountInvalid)
                            } else if bal(s, ain, who) < buy_price {
                                Err(Error::InsufficientAssetBalance)
                            } else if max_limit < buy_price {
                                Err(Error::AssetBalanceLimitExceeded)
                            } else {
                                match discount_fee_of(s, who, aout, hdx_amount, discount) {
                                    Err(e) => Err(e),
                                    Ok(d) => Ok((buy_price, d)),
                                }
                            }
                        },
                    }
                }
            },
        }
    }
}

/// The reference-asset fee withdrawn from `origin`, where the discount applies.
pub open spec fn discount_paid(s: PalletView, origin: Seq<u8>, discount: bool, discount_amount: nat) -> Result<Balances, Error> {
    if discount && discount_amount > 0 {
        withdrawn(s.balances, s.config.hdx_asset_id, origin, discount_amount)
    } else {
        Ok(s.balances)
    }
}

/// Executing a sell: the discount fee, then `amount` of `asset_in` into the
/// pool and `amount_out` of `asset_out` out of it.
pub open spec fn execute_sell_of(s: PalletView, origin: Seq<u8>, assets: AssetPair, amount: nat, amount_out: nat, discount: bool, discount_amount: nat) -> Result<PalletView, Error> {
    let acct = pair_account(assets.asset_in, assets.asset_out);
    let m = match discount_paid(s, origin, discount, discount_amount) {
        Err(e) => Err(e),
        Ok(m0) => match transferred(m0, assets.asset_in, origin, acct, amount) {
            Err(e) => Err(e),
            Ok(m1) => transferred(m1, assets.asset_out, acct, origin, amount_out),
        },
    };
    match m {
        Err(e) => Err(e),
        Ok(m) => Ok(PalletView {
            balances: m,
            events: s.events.push(
                EventView::SellExecuted(origin, assets.asset_in, assets.asset_out, amount as Balance, amount_out as Balance),
            ),
            ..s
        }),
    }
}

/// Executing a buy: the discount fee, then `amount` of `asset_out` out of the
/// pool and `amount_in` of `asset_in` into it.
pub open spec fn execute_buy_of(s: PalletView, origin: Seq<u8>, assets: AssetPair, amount: nat, amount_in: nat, discount: bool, discount_amount: nat) -> Result<PalletView, Error> {
    let acct = pair_account(assets.asset_in, assets.asset_out);
    let m = match discount_paid(s, origin, discount, discount_amount) {
        Err(e) => Err(e),
        Ok(m0) => match transferred(m0, assets.asset_out, acct, origin, amount) {
            Err(e) => Err(e),
            Ok(m1) => transferred(m1, assets.asset_in, origin, acct, amount_in),
        },
    };
    match m {
        Err(e) => Err(e),
        Ok(m) => Ok(PalletView {
            balances: m,
            events: s.events.push(
                EventView::BuyExecuted(origin, assets.asset_out, assets.asset_in, amount as Balance, amount_in as Balance),
            ),
            ..s
        }),
    }
}

/// A sell: validation, then execution.
pub open spec fn sell_of(s: PalletView, who: Seq<u8>, assets: AssetPair, amount: nat, min_bought: nat, discount: bool) -> Result<PalletView, Error> {
    match validate_sell_of(s, who, assets, amount, min_bought, discount) {
        Err(e) => Err(e),
        Ok((amount_out, d)) => execute_sell_of(s, who, assets, amount, amount_out, discount, d),
    }
}

/// A buy: validation, then execution.
pub open spec fn buy_of(s: PalletView, who: Seq<u8>, assets: AssetPair, amount: nat, max_limit: nat, discount: bool) -> Result<PalletView, Error> {
    match validate_buy_of(s, who, assets, amount, max_limit, discount) {
        Err(e) => Err(e),
        Ok((amount_in, d)) => execute_buy_of(s, who, assets, amount, amount_in, discount, d),
    }
}

/// The transfer that validation returns for `origin` and a computed result.
pub open spec fn transfer_matches(t: AMMTransfer, origin: Seq<u8>, assets: AssetPair, amount: nat, discount: bool, result: (nat, nat)) -> bool {
    &&& t.origin@ == origin
    &&& t.assets == assets
    &&& t.amount as nat == amount
    &&& t.amount_out as nat == result.0
    &&& t.discount == discount
    &&& t.discount_amount as nat == result.1
}

/// Spot price of `amount` of `asset_a` in `asset_b` from their pool's
/// reserves, zero where it cannot be computed.
pub open spec fn spot_price_unchecked_of(s: PalletView, asset_a: AssetId, asset_b: AssetId, amount: nat) -> nat {
    let acct = pair_account(asset_b, asset_a);
    let p = spot_price_of(bal(s, asset_a, acct), bal(s, asset_b, acct), amount);
    if bal(s, asset_a, acct) != 0 && p <= u128::MAX {
        p
    } else {
        0
    }
}

/// What holds of each registered pool: claim tokens are outstanding, it sits
/// at the account of its two distinct assets, and its claim token is neither
/// of them and is the one registered under the pair's name.
pub open spec fn pool_wf(s: PalletView, acct: Seq<u8>, p: PoolInfo) -> bool {
    &&& p.total_liquidity > 0
    &&& acct == pair_account(p.asset_a, p.asset_b)
    &&& acct.len() == 32
    &&& p.asset_a != p.asset_b
    &&& p.share_token != p.asset_a
    &&& p.share_token != p.asset_b
    &&& s.registry.names.contains_key(share_token_name(p.asset_a, p.asset_b))
    &&& s.registry.names[share_token_name(p.asset_a, p.asset_b)] == p.share_token
}

/// The invariant of the engine: sound settings, claim-token identifiers at or
/// above `first_share_token`, and every pool well formed.
pub open spec fn state_wf(s: PalletView) -> bool {
    &&& s.config.wf()
    &&& s.registry.next_asset_id >= s.first_share_token
    &&& forall|n: Seq<u8>| #[trigger] s.registry.names.contains_key(n) ==> s.registry.names[n] >= s.first_share_token
    &&& forall|k: Seq<u8>| #[trigger] s.pools.contains_key(k) ==> pool_wf(s, k, s.pools[k])
}

impl Pallet {
    /// The invariant holds.
    pub open spec fn wf(&self) -> bool {
        state_wf(self@)
    }

    /// An engine with no pool and no balance; claim tokens get identifiers
    /// from `first_share_token` on.
    pub fn new(config: Config, first_share_token: AssetId) -> (r: Self)
        requires
            config.wf(),
        ensures
            r.wf(),
            r@.config == config,
            r@.balances == Map::total(|k: (AssetId, Seq<u8>)| 0nat),
            r@.pools == Map::<Seq<u8>, PoolInfo>::empty(),
            r@.registry.names == Map::<Seq<u8>, AssetId>::empty(),
            r@.registry.next_asset_id == first_share_token,
            r@.first_share_token == first_share_token,
            r@.events == Seq::<EventView>::empty(),
    {
        Pallet {
            config,
            ledger: Ledger::new(),
            pools: ByteMap::new(),
            asset_registry: AssetRegistry::new(first_share_token),
            first_share_token,
            events: Vec::new(),
        }
    }

    /// Records a notification.
    fn deposit_event(&mut self, e: Event)
        ensures
            final(self)@ == (PalletView { events: old(self)@.events.push(e@), ..old(self)@ }),
    {
        self.events.push(e);
        assert(self@.events =~= old(self)@.events.push(e@));
    }

    /// The notifications recorded so far, oldest first.
    pub fn events(&self) -> (r: &Vec<Event>)
        ensures
            r@.map_values(|e: Event| e@) == self@.events,
    {
        &self.events
    }

    /// Hands out the notifications recorded so far and forgets them.
    pub fn take_events(&mut self) -> (r: Vec<Event>)
        ensures
            r@.map_values(|e: Event| e@) == old(self)@.events,
            final(self)@ == (PalletView { events: Seq::<EventView>::empty(), ..old(self)@ }),
    {
        let mut r: Vec<Event> = Vec::new();
        std::mem::swap(&mut r, &mut self.events);
        assert(self@.events =~= Seq::<EventView>::empty());
        r
    }

    /// The settings.
    pub fn config(&self) -> (r: Config)
        ensures
            r == self@.config,
    {
        self.config
    }

    /// What `who` holds of `asset`.
    pub fn free_balance(&self, asset: AssetId, who: &AccountId) -> (r: Balance)
        ensures
            r as nat == bal(self@, asset, who@),
    {
        self.ledger.free_balance(asset, who)
    }

    /// Creates `amount` of `asset` on `who`: how balances come into the
    /// engine. Claim tokens are refused: only the pools mint them.
    pub fn endow(&mut self, asset: AssetId, who: &AccountId, amount: Balance) -> (r: Result<(), Error>)
        ensures
            final(self).wf() == old(self).wf(),
            outcome(r, old(self)@, final(self)@, endow_of(old(self)@, asset, who@, amount as nat)),
    {
        if asset >= self.first_share_token {
            return Err(Error::ShareTokenNotEndowable);
        }
        let r = self.ledger.deposit(asset, who, amount);
        proof {
            assert forall|k: Seq<u8>| #[trigger] self@.pools.contains_key(k) implies pool_wf(self@, k, self@.pools[k]) == pool_wf(old(self)@, k, old(self)@.pools[k]) by {}
        }
        r
    }

    /// What the registry records of the pool at `acct`.
    pub fn pool_info(&self, acct: &AccountId) -> (r: Option<PoolInfo>)
        ensures
            r == (if self@.pools.contains_key(acct@) {
                Some(self@.pools[acct@])
            } else {
                None
            }),
    {
        self.pools.get(acct)
    }

    /// Total claim-token supply of the pool at `acct` (zero where there is none).
    pub fn total_liquidity(&self, acct: &AccountId) -> (r: Balance)
        ensures
            r == (if self@.pools.contains_key(acct@) {
                self@.pools[acct@].total_liquidity
            } else {
                0
            }),
    {
        match self.pools.get(acct) {
            Some(p) => p.total_liquidity,
            None => 0,
        }
    }

    /// The claim token of the pool at `acct`, if it exists.
    pub fn share_token(&self, acct: &AccountId) -> (r: Option<AssetId>)
        ensures
            r == (if self@.pools.contains_key(acct@) {
                Some(self@.pools[acct@].share_token)
            } else {
                None
            }),
    {
        match self.pools.get(acct) {
            Some(p) => Some(p.share_token),
            None => None,
        }
    }

    /// Whether the pool of the pair exists.
    pub fn pool_exists(&self, assets: AssetPair) -> (r: bool)
        ensures
            r == has_pool(self@, assets.asset_in, assets.asset_out),
    {
        let acct = AssetPairAccountId::from_assets(assets.asset_in, assets.asset_out);
        self.pools.get(&acct).is_some()
    }

    /// The account of the pool of the pair.
    pub fn get_pair_id(&self, assets: AssetPair) -> (r: AccountId)
        ensures
            r@ == pair_account(assets.asset_in, assets.asset_out),
            r@.len() == 32,
    {
        AssetPairAccountId::from_assets(assets.asset_in, assets.asset_out)
    }

    /// The two assets of the pool at `pool_account_id`, in creation order.
    pub fn get_pool_assets(&self, pool_account_id: &AccountId) -> (r: Option<Vec<AssetId>>)
        ensures
            match r {
                Some(v) => self@.pools.contains_key(pool_account_id@) && v@ == seq![
                    self@.pools[pool_account_id@].asset_a,
                    self@.pools[pool_account_id@].asset_b,
                ],
                None => !self@.pools.contains_key(pool_account_id@),
            },
    {
        match self.pools.get(pool_account_id) {
            Some(p) => {
                let v = vec![p.asset_a, p.asset_b];
                Some(v)
            },
            None => None,
        }
    }

    /// Each asset of the pool at `pool_address` with the pool's reserve of it;
    /// empty where there is no such pool.
    pub fn get_pool_balances(&self, pool_address: &AccountId) -> (r: Option<Vec<(AssetId, Balance)>>)
        ensures
            r matches Some(v) && (if self@.pools.contains_key(pool_address@) {
                let p = self@.pools[pool_address@];
                v@.len() == 2 && v@[0].0 == p.asset_a && v@[0].1 as nat == bal(self@, p.asset_a, pool_address@)
                    && v@[1].0 == p.asset_b && v@[1].1 as nat == bal(self@, p.asset_b, pool_address@)
            } else {
                v@.len() == 0
            }),
    {
        let mut balances: Vec<(AssetId, Balance)> = Vec::new();
        match self.get_pool_assets(pool_address) {
            Some(assets) => {
                let mut i: usize = 0;
                while i < assets.len()
                    invariant
                        assets@.len() == 2,
                        i <= 2,
                        balances@.len() == i,
                        forall|j: int| 0 <= j < i ==> balances@[j].0 == assets@[j]
                            && balances@[j].1 as nat == bal(self@, assets@[j], pool_address@),
                    decreases 2 - i,
                {
                    let item = assets[i];
                    let reserve = self.ledger.free_balance(item, pool_address);
                    balances.push((item, reserve));
                    i = i + 1;
                }
            },
            None => {},
        }
        Some(balances)
    }

    /// Creates the pool of `asset_a` and `asset_b` with `amount` of `asset_a`
    /// and `amount * initial_price` of `asset_b` from `who`, who receives the
    /// first claim tokens.
    pub fn create_pool(&mut self, who: &AccountId, asset_a: AssetId, asset_b: AssetId, amount: Balance, initial_price: Price) -> (r: Result<(), Error>)
        requires
            old(self).wf(),
        ensures
            final(self).wf(),
            outcome(r, old(self)@, final(self)@, create_pool_of(old(self)@, who@, asset_a, asset_b, amount as nat, initial_price)),
    {
        if amount == 0 {
            return Err(Error::CannotCreatePoolWithZeroLiquidity);
        }
        if initial_price.inner == 0 {
            return Err(Error::CannotCreatePoolWithZeroInitialPrice);
        }
        if asset_a == asset_b {
            return Err(Error::CannotCreatePoolWithSameAssets);
        }
        if self.pool_exists(AssetPair { asset_in: asset_a, asset_out: asset_b }) {
            return Err(Error::TokenPoolAlreadyExists);
        }
        let asset_b_amount = match initial_price.checked_mul_int(amount) {
            Some(v) => v,
            None => {
                return Err(Error::CreatePoolAssetAmountInvalid);
            },
        };
        let shares_added = if asset_a < asset_b {
            amount
        } else {
            asset_b_amount
        };
        if shares_added == 0 {
            return Err(Error::InvalidMintedLiquidity);
        }
        if self.ledger.free_balance(asset_a, who) < amount {
            return Err(Error::InsufficientAssetBalance);
        }
        if self.ledger.free_balance(asset_b, who) < asset_b_amount {
            return Err(Error::InsufficientAssetBalance);
        }
        let pair_account = self.get_pair_id(AssetPair { asset_in: asset_a, asset_out: asset_b });
        let token_name = share_token_name_of(asset_a, asset_b);
        let share_token = match self.asset_registry.retrieve_asset(&token_name) {
            Some(id) => id,
            None => {
                let id = self.asset_registry.next_asset_id();
                if id == u32::MAX {
                    return Err(Error::NoIdAvailable);
                }
                id
            },
        };
        if share_token == asset_a || share_token == asset_b {
            return Err(Error::ShareTokenIsPoolAsset);
        }
        let moved = self.ledger.apply_all(
            &LedgerOp::Transfer(asset_a, copy_bytes(who), copy_bytes(&pair_account), amount),
            &LedgerOp::Transfer(asset_b, copy_bytes(who), copy_bytes(&pair_account), asset_b_amount),
            &LedgerOp::Deposit(share_token, copy_bytes(who), shares_added),
        );
        if let Err(e) = moved {
            return Err(e);
        }
        let _ = self.asset_registry.get_or_create_asset(&token_name);
        self.pools.insert(
            &pair_account,
            PoolInfo { asset_a, asset_b, share_token, total_liquidity: shares_added },
        );
        self.deposit_event(Event::PoolCreated(copy_bytes(who), asset_a, asset_b, shares_added));
        Ok(())
    }

    /// Adds `amount_a` of `asset_a`, and of `asset_b` what keeps the pool's
    /// ratio (at most `amount_b_max_limit`), to an existing pool.
    pub fn add_liquidity(&mut self, who: &AccountId, asset_a: AssetId, asset_b: AssetId, amount_a: Balance, amount_b_max_limit: Balance) -> (r: Result<(), Error>)
        requires
            old(self).wf(),
        ensures
            final(self).wf(),
            outcome(r, old(self)@, final(self)@, add_liquidity_of(old(self)@, who@, asset_a, asset_b, amount_a as nat, amount_b_max_limit as nat)),
    {
        let assets = AssetPair { asset_in: asset_a, asset_out: asset_b };
        if !self.pool_exists(assets) {
            return Err(Error::TokenPoolNotFound);
        }
        if amount_a == 0 || amount_b_max_limit == 0 {
            return Err(Error::CannotAddZeroLiquidity);
        }
        let pair_account = self.get_pair_id(assets);
        let pool = match self.pools.get(&pair_account) {
            Some(p) => p,
            None => {
                return Err(Error::TokenPoolNotFound);
            },
        };
        let asset_a_reserve = self.ledger.free_balance(asset_a, &pair_account);
        let asset_b_reserve = self.ledger.free_balance(asset_b, &pair_account);
        let amount_b_required = match calculate_liquidity_in(asset_a_reserve, asset_b_reserve, amount_a) {
            Ok(v) => v,
            Err(_) => {
                return Err(Error::AddAssetAmountInvalid);
            },
        };
        let shares_added = if asset_a < asset_b {
            amount_a
        } else {
            amount_b_required
        };
        if amount_b_required > amount_b_max_limit {
            return Err(Error::AssetBalanceLimitExceeded);
        }
        if shares_added == 0 {
            return Err(Error::InvalidMintedLiquidity);
        }
        let liquidity_amount = match pool.total_liquidity.checked_add(shares_added) {
            Some(v) => v,
            None => {
                return Err(Error::InvalidLiquidityAmount);
            },
        };
        if self.ledger.free_balance(asset_a, who) < amount_a {
            return Err(Error::InsufficientAssetBalance);
        }
        if self.ledger.free_balance(asset_b, who) < amount_b_required {
            return Err(Error::InsufficientAssetBalance);
        }
        let moved = self.ledger.apply_all(
            &LedgerOp::Transfer(asset_a, copy_bytes(who), copy_bytes(&pair_account), amount_a),
            &LedgerOp::Transfer(asset_b, copy_bytes(who), copy_bytes(&pair_account), amount_b_required),
            &LedgerOp::Deposit(pool.share_token, copy_bytes(who), shares_added),
        );
        if let Err(e) = moved {
            return Err(e);
        }
        self.pools.insert(&pair_account, PoolInfo { total_liquidity: liquidity_amount, ..pool });
        self.deposit_event(Event::LiquidityAdded(copy_bytes(who), asset_a, asset_b, amount_a, amount_b_required));
        Ok(())
    }

    /// Burns `liquidity_amount` of `who`'s claim tokens of the pool and pays
    /// out the same share of each reserve; destroys the pool when no claim
    /// token is left.
    pub fn remove_liquidity(&mut self, who: &AccountId, asset_a: AssetId, asset_b: AssetId, liquidity_amount: Balance) -> (r: Result<(), Error>)
        requires
            old(self).wf(),
        ensures
            final(self).wf(),
            outcome(r, old(self)@, final(self)@, remove_liquidity_of(old(self)@, who@, asset_a, asset_b, liquidity_amount as nat)),
    {
        let assets = AssetPair { asset_in: asset_a, asset_out: asset_b };
        if liquidity_amount == 0 {
            return Err(Error::CannotRemoveLiquidityWithZero);
        }
        if !self.pool_exists(assets) {
            return Err(Error::TokenPoolNotFound);
        }
        let pair_account = self.get_pair_id(assets);
        let pool = match self.pools.get(&pair_account) {
            Some(p) => p,
            None => {
                return Err(Error::TokenPoolNotFound);
            },
        };
        let total_shares = pool.total_liquidity;
        if total_shares < liquidity_amount {
            return Err(Error::InsufficientAssetBalance);
        }
        if self.ledger.free_balance(pool.share_token, who) < liquidity_amount {
            return Err(Error::InsufficientAssetBalance);
        }
        let asset_a_reserve = self.ledger.free_balance(asset_a, &pair_account);
        let asset_b_reserve = self.ledger.free_balance(asset_b, &pair_account);
        let (remove_amount_a, remove_amount_b) = match calculate_liquidity_out(
            asset_a_reserve,
            asset_b_reserve,
            liquidity_amount,
            total_shares,
        ) {
            Ok(v) => v,
            Err(_) => {
                return Err(Error::RemoveAssetAmountInvalid);
            },
        };
        if asset_a_reserve < remove_amount_a || asset_b_reserve < remove_amount_b {
            return Err(Error::InsufficientPoolAssetBalance);
        }
        let liquidity_left = total_shares - liquidity_amount;
        let moved = self.ledger.apply_all(
            &LedgerOp::Transfer(asset_a, copy_bytes(&pair_account), copy_bytes(who), remove_amount_a),
            &LedgerOp::Transfer(asset_b, copy_bytes(&pair_account), copy_bytes(who), remove_amount_b),
            &LedgerOp::Withdraw(pool.share_token, copy_bytes(who), liquidity_amount),
        );
        if let Err(e) = moved {
            return Err(e);
        }
        self.deposit_event(Event::LiquidityRemoved(copy_bytes(who), asset_a, asset_b, liquidity_amount));
        if liquidity_left == 0 {
            self.pools.remove(&pair_account);
            self.deposit_event(Event::PoolDestroyed(copy_bytes(who), asset_a, asset_b));
        } else {
            self.pools.insert(&pair_account, PoolInfo { total_liquidity: liquidity_left, ..pool });
        }
        Ok(())
    }

    /// Spot price of `amount` of `asset_a` in `asset_b`; zero where it cannot be computed.
    pub fn get_spot_price_unchecked(&self, asset_a: AssetId, asset_b: AssetId, amount: Balance) -> (r: Balance)
        ensures
            r as nat == spot_price_unchecked_of(self@, asset_a, asset_b, amount as nat),
    {
        let pair_account = self.get_pair_id(AssetPair { asset_out: asset_a, asset_in: asset_b });
        let asset_a_reserve = self.ledger.free_balance(asset_a, &pair_account);
        let asset_b_reserve = self.ledger.free_balance(asset_b, &pair_account);
        match calculate_spot_price(asset_a_reserve, asset_b_reserve, amount) {
            Ok(v) => v,
            Err(_) => 0,
        }
    }

    fn discount_fee(&self, who: &AccountId, asset: AssetId, hdx_amount: Balance, discount: bool) -> (r: Result<Balance, Error>)
        ensures
            match discount_fee_of(self@, who@, asset, hdx_amount as nat, discount) {
                Ok(d) => r matches Ok(v) && v as nat == d,
                Err(e) => r == Err::<Balance, Error>(e),
            },
    {
        if discount && hdx_amount > 0 {
            let hdx_asset = self.config.hdx_asset_id;
            let hdx_pair_account = self.get_pair_id(AssetPair { asset_in: asset, asset_out: hdx_asset });
            let hdx_reserve = self.ledger.free_balance(hdx_asset, &hdx_pair_account);
            let asset_reserve = self.ledger.free_balance(asset, &hdx_pair_account);
            let hdx_fee_spot_price = match calculate_spot_price(asset_reserve, hdx_reserve, hdx_amount) {
                Ok(v) => v,
                Err(_) => {
                    return Err(Error::CannotApplyDiscount);
                },
            };
            if self.ledger.free_balance(hdx_asset, who) < hdx_fee_spot_price {
                return Err(Error::InsufficientHDXBalance);
            }
            Ok(hdx_fee_spot_price)
        } else {
            Ok(0)
        }
    }

    /// Checks a sell of `amount` of `asset_in` by `who`, receiving at least
    /// `min_bought`, and computes what it moves. Changes nothing.
    pub fn validate_sell(&self, who: &AccountId, assets: AssetPair, amount: Balance, min_bought: Balance, discount: bool) -> (r: Result<AMMTransfer, Error>)
        requires
            self.wf(),
        ensures
            match validate_sell_of(self@, who@, assets, amount as nat, min_bought as nat, discount) {
                Ok(res) => r matches Ok(t) && transfer_matches(t, who@, assets, amount as nat, discount, res),
                Err(e) => r matches Err(e2) && e2 == e,
            },
    {
        if self.ledger.free_balance(assets.asset_in, who) < amount {
            return Err(Error::InsufficientAssetBalance);
        }
        if !self.pool_exists(assets) {
            return Err(Error::TokenPoolNotFound);
        }
        if discount && !self.pool_exists(AssetPair { asset_in: assets.asset_in, asset_out: self.config.hdx_asset_id }) {
            return Err(Error::CannotApplyDiscount);
        }
        let pair_account = self.get_pair_id(assets);
        let asset_in_total = self.ledger.free_balance(assets.asset_in, &pair_account);
        let asset_out_total = self.ledger.free_balance(assets.asset_out, &pair_account);
        if amount > asset_in_total / self.config.max_in_ratio {
            return Err(Error::MaxInRatioExceeded);
        }
        let mut hdx_amount: Balance = 0;
        let transfer_fee = calculate_fees(amount, discount, self.config.exchange_fee, &mut hdx_amount)?;
        proof {
            crate::fee::lemma_fees_at_most(amount as nat, discount, self.config.exchange_fee);
        }
        let sale_price = match calculate_out_given_in(asset_in_total, asset_out_total, amount - transfer_fee) {
            Ok(v) => v,
            Err(_) => {
                return Err(Error::SellAssetAmountInvalid);
            },
        };
        if asset_out_total < sale_price {
            return Err(Error::InsufficientAssetBalance);
        }
        if min_bought > sale_price {
            return Err(Error::AssetBalanceLimitExceeded);
        }
        let discount_fee = self.discount_fee(who, assets.asset_in, hdx_amount, discount)?;
        Ok(AMMTransfer {
            origin: copy_bytes(who),
            assets,
            amount,
            amount_out: sale_price,
            discount,
            discount_amount: discount_fee,
        })
    }

    /// Checks a buy of `amount` of `asset_out` by `who`, paying at most
    /// `max_limit`, and computes what it moves. Changes nothing.
    pub fn validate_buy(&self, who: &AccountId, assets: AssetPair, amount: Balance, max_limit: Balance, discount: bool) -> (r: Result<AMMTransfer, Error>)
        requires
            self.wf(),
        ensures
            match validate_buy_of(self@, who@, assets, amount as nat, max_limit as nat, discount) {
                Ok(res) => r matches Ok(t) && transfer_matches(t, who@, assets, amount as nat, discount, res),
                Err(e) => r matches Err(e2) && e2 == e,
            },
    {
        if !self.pool_exists(assets) {
            return Err(Error::TokenPoolNotFound);
        }
        let pair_account = self.get_pair_id(assets);
        let asset_out_reserve = self.ledger.free_balance(assets.asset_out, &pair_account);
        let asset_in_reserve = self.ledger.free_balance(assets.asset_in, &pair_account);
        if asset_out_reserve <= amount {
            return Err(Error::InsufficientPoolAssetBalance);
        }
        if amount > asset_out_reserve / self.config.max_out_ratio {
            return Err(Error::MaxOutRatioExceeded);
        }
        if discount && !self.pool_exists(AssetPair { asset_in: assets.asset_out, asset_out: self.config.hdx_asset_id }) {
            return Err(Error::CannotApplyDiscount);
        }
        let mut hdx_amount: Balance = 0;
        let transfer_fee = calculate_fees(amount, discount, self.config.exchange_fee, &mut hdx_amount)?;
        let amount_with_fee = match amount.checked_add(transfer_fee) {
            Some(v) => v,
            None => {
                return Err(Error::InsufficientPoolAssetBalance);
            },
        };
        if amount_with_fee > asset_out_reserve {
            return Err(Error::InsufficientPoolAssetBalance);
        }
        let buy_price = match calculate_in_given_out(asset_out_reserve, asset_in_reserve, amount_with_fee) {
            Ok(v) => v,
            Err(_) => {
                return Err(Error::BuyAssetAmountInvalid);
            },
        };
        if self.ledger.free_balance(assets.asset_in, who) < buy_price {
            return Err(Error::InsufficientAssetBalance);
        }
        if max_limit < buy_price {
            return Err(Error::AssetBalanceLimitExceeded);
        }
        let discount_fee = self.discount_fee(who, assets.asset_out, hdx_amount, discount)?;
        Ok(AMMTransfer {
            origin: copy_bytes(who),
            assets,
            amount: amount,
            amount_out: buy_price,
            discount,
            discount_amount: discount_fee,
        })
    }

    /// The withdrawal of the discount fee, or of nothing where none is due.
    fn discount_op(&self, transfer: &AMMTransfer) -> (r: LedgerOp)
        ensures
            forall|m: Balances| crate::ledger::bounded(m) ==> #[trigger] op_result(m, r) == (if transfer.discount && transfer.discount_amount > 0 {
                withdrawn(m, self@.config.hdx_asset_id, transfer.origin@, transfer.discount_amount as nat)
            } else {
                Ok(m)
            }),
    {
        let amount = if transfer.discount && transfer.discount_amount > 0 {
            transfer.discount_amount
        } else {
            0
        };
        let r = LedgerOp::Withdraw(self.config.hdx_asset_id, copy_bytes(&transfer.origin), amount);
        proof {
            assert forall|m: Balances| crate::ledger::bounded(m) implies #[trigger] op_result(m, r) == (if transfer.discount && transfer.discount_amount > 0 {
                withdrawn(m, self@.config.hdx_asset_id, transfer.origin@, transfer.discount_amount as nat)
            } else {
                Ok(m)
            }) by {
                crate::ledger::lemma_withdraw_nothing(m, self@.config.hdx_asset_id, transfer.origin@);
            }
        }
        r
    }

    /// Carries out a validated sell: the discount fee, then the two transfers.
    pub fn execute_sell(&mut self, transfer: &AMMTransfer) -> (r: Result<(), Error>)
        requires
            old(self).wf(),
        ensures
            final(self).wf(),
            outcome(r, old(self)@, final(self)@, execute_sell_of(old(self)@, transfer.origin@, transfer.assets, transfer.amount as nat, transfer.amount_out as nat, transfer.discount, transfer.discount_amount as nat)),
    {
        let pair_account = self.get_pair_id(transfer.assets);
        let first = self.discount_op(transfer);
        proof { self.ledger.lemma_bounded(); }
        self.ledger.apply_all(
            &first,
            &LedgerOp::Transfer(transfer.assets.asset_in, copy_bytes(&transfer.origin), copy_bytes(&pair_account), transfer.amount),
            &LedgerOp::Transfer(transfer.assets.asset_out, copy_bytes(&pair_account), copy_bytes(&transfer.origin), transfer.amount_out),
        )?;
        self.deposit_event(
            Event::SellExecuted(copy_bytes(&transfer.origin), transfer.assets.asset_in, transfer.assets.asset_out, transfer.amount, transfer.amount_out),
        );
        Ok(())
    }

    /// Carries out a validated buy: the discount fee, then the two transfers.
    pub fn execute_buy(&mut self, transfer: &AMMTransfer) -> (r: Result<(), Error>)
        requires
            old(self).wf(),
        ensures
            final(self).wf(),
            outcome(r, old(self)@, final(self)@, execute_buy_of(old(self)@, transfer.origin@, transfer.assets, transfer.amount as nat, transfer.amount_out as nat, transfer.discount, transfer.discount_amount as nat)),
    {
        let pair_account = self.get_pair_id(transfer.assets);
        let first = self.discount_op(transfer);
        proof { self.ledger.lemma_bounded(); }
        self.ledger.apply_all(
            &first,
            &LedgerOp::Transfer(transfer.assets.asset_out, copy_bytes(&pair_account), copy_bytes(&transfer.origin), transfer.amount),
            &LedgerOp::Transfer(transfer.assets.asset_in, copy_bytes(&transfer.origin), copy_bytes(&pair_account), transfer.amount_out),
        )?;
        self.deposit_event(
            Event::BuyExecuted(copy_bytes(&transfer.origin), transfer.assets.asset_out, transfer.assets.asset_in, transfer.amount, transfer.amount_out),
        );
        Ok(())
    }

    /// Sells `amount` of `asset_in` for at least `max_limit` of `asset_out`.
    pub fn sell(&mut self, who: &AccountId, assets: AssetPair, amount: Balance, max_limit: Balance, discount: bool) -> (r: Result<(), Error>)
        requires
            old(self).wf(),
        ensures
            final(self).wf(),
            outcome(r, old(self)@, final(self)@, sell_of(old(self)@, who@, assets, amount as nat, max_limit as nat, discount)),
    {
        let transfer = self.validate_sell(who, assets, amount, max_limit, discount)?;
        self.execute_sell(&transfer)
    }

    /// Buys `amount` of `asset_out` for at most `max_limit` of `asset_in`.
    pub fn buy(&mut self, who: &AccountId, assets: AssetPair, amount: Balance, max_limit: Balance, discount: bool) -> (r: Result<(), Error>)
        requires
            old(self).wf(),
        ensures
            final(self).wf(),
            outcome(r, old(self)@, final(self)@, buy_of(old(self)@, who@, assets, amount as nat, max_limit as nat, discount)),
    {
        let transfer = self.validate_buy(who, assets, amount, max_limit, discount)?;
        self.execute_buy(&transfer)
    }
}

} // verus!
