//! Plain data shared by the pool engine.
use vstd::prelude::*;
use vstd::arithmetic::div_mod::{lemma_div_is_ordered, lemma_fundamental_div_mod, lemma_hoist_over_denominator};

verus! {

/// Identifier of an asset.
pub type AssetId = u32;

/// An amount of some asset.
pub type Balance = u128;

/// An account: the bytes of its identifier.
pub type AccountId = Vec<u8>;

/// An ordered pair of assets: the one that goes into a pool and the one that comes out.
#[derive(Clone, Copy, Debug, PartialEq, Eq, Structural)]
pub struct AssetPair {
    pub asset_in: AssetId,
    pub asset_out: AssetId,
}

/// A fee rate, `numerator / denominator` of an amount.
#[derive(Clone, Copy, Debug, PartialEq, Eq, Structural)]
pub struct Fee {
    pub numerator: u32,
    pub denominator: u32,
}

/// An unsigned fixed-point price with 18 decimals: `inner / 10^18`.
#[derive(Clone, Copy, Debug, PartialEq, Eq, Structural)]
pub struct Price {
    pub inner: u128,
}

/// One unit of a [`Price`]'s fixed-point representation.
pub const PRICE_ONE: u128 = 1_000_000_000_000_000_000;

/// `n` times `price`, rounded down.
pub open spec fn price_mul(price: Price, n: nat) -> nat {
    n * (price.inner as nat) / (PRICE_ONE as nat)
}

impl Price {
    /// The price `n`.
    pub fn from_integer(n: u64) -> (r: Price)
        ensures
            r.inner == n as u128 * PRICE_ONE,
    {
        assert(n as u128 * PRICE_ONE <= u128::MAX) by (nonlinear_arith)
            requires
                n <= u64::MAX,
                PRICE_ONE == 1_000_000_000_000_000_000u128,
        ;
        Price { inner: n as u128 * PRICE_ONE }
    }

    /// `n` times this price, rounded down; `None` where that exceeds `u128`.
    /// The product is formed at full width, so only the result can overflow.
    pub fn checked_mul_int(&self, n: u128) -> (r: Option<u128>)
        ensures
            r matches Some(v) ==> v as nat == price_mul(*self, n as nat),
            r is None <==> price_mul(*self, n as nat) > u128::MAX,
    {
        let d = PRICE_ONE;
        let q = self.inner / d;
        let rem = self.inner % d;
        let h = n / d;
        let l = n % d;
        proof {
            let (ni, qi, ri, hi, li, di) = (n as int, q as int, rem as int, h as int, l as int, d as int);
            let ii = self.inner as int;
            lemma_fundamental_div_mod(ii, di);
            lemma_fundamental_div_mod(ni, di);
            assert(ni * ii == di * (ni * qi + hi * ri) + li * ri) by (nonlinear_arith)
                requires
                    ii == di * qi + ri,
                    ni == di * hi + li,
            ;
            lemma_hoist_over_denominator(li * ri, ni * qi + hi * ri, d as nat);
            assert(li * ri + (ni * qi + hi * ri) * di == ni * ii) by (nonlinear_arith)
                requires
                    ni * ii == di * (ni * qi + hi * ri) + li * ri,
            ;
            assert(hi * ri <= ni) by (nonlinear_arith)
                requires
                    ni == di * hi + li,
                    0 <= ri < di,
                    0 <= li,
                    0 <= hi,
            ;
            assert(li * ri < di * di) by (nonlinear_arith)
                requires
                    0 <= ri < di,
                    0 <= li < di,
            ;
            assert(0 <= li * ri) by (nonlinear_arith)
                requires
                    0 <= ri,
                    0 <= li,
            ;
            lemma_div_is_ordered(0, li * ri, di);
            assert(0 <= ni * qi) by (nonlinear_arith)
                requires
                    0 <= ni,
                    0 <= qi,
            ;
        }
        let tail = (l * rem) / d;
        let mid = h * rem;
        match n.checked_mul(q) {
            None => None,
            Some(head) => match head.checked_add(mid) {
                None => None,
                Some(x) => x.checked_add(tail),
            },
        }
    }
}

/// What the registry records of an existing pool.
#[derive(Clone, Copy, Debug, PartialEq, Eq, Structural)]
pub struct PoolInfo {
    /// The assets in the order in which the pool was created.
    pub asset_a: AssetId,
    pub asset_b: AssetId,
    /// The claim token minted to liquidity providers.
    pub share_token: AssetId,
    /// Total supply of the claim token.
    pub total_liquidity: Balance,
}

/// Settings of the engine, fixed for its lifetime.
#[derive(Clone, Copy, Debug, PartialEq, Eq, Structural)]
pub struct Config {
    /// Trading fee rate.
    pub exchange_fee: Fee,
    /// A sell may bring in at most `reserve / max_in_ratio`.
    pub max_in_ratio: u128,
    /// A buy may take out at most `reserve / max_out_ratio`.
    pub max_out_ratio: u128,
    /// The reference asset in which discounted fees are paid.
    pub hdx_asset_id: AssetId,
}

/// The largest fraction of a reserve (as a divisor) that one trade may move.
pub const MAX_IN_RATIO: u128 = 3;

/// The largest fraction of a reserve (as a divisor) that one purchase may take.
pub const MAX_OUT_RATIO: u128 = 3;

impl Config {
    /// Divisors are positive and the fee rate is at most one.
    pub open spec fn wf(&self) -> bool {
        &&& self.max_in_ratio > 0
        &&& self.max_out_ratio > 0
        &&& self.exchange_fee.numerator <= self.exchange_fee.denominator
    }
}

/// Why an operation was refused. Nothing changes when one is returned.
#[derive(Clone, Copy, Debug, PartialEq, Eq, Structural)]
pub enum Error {
    /// It is not allowed to create a pool between same assets.
    CannotCreatePoolWithSameAssets,
    /// It is not allowed to create a pool with zero initial liquidity.
    CannotCreatePoolWithZeroLiquidity,
    /// It is not allowed to create a pool with zero initial price.
    CannotCreatePoolWithZeroInitialPrice,
    /// The second asset's initial amount overflows.
    CreatePoolAssetAmountInvalid,
    /// It is not allowed to remove zero liquidity.
    CannotRemoveLiquidityWithZero,
    /// It is not allowed to add zero liquidity.
    CannotAddZeroLiquidity,
    /// The shares to be minted are zero.
    InvalidMintedLiquidity,
    /// The total liquidity overflows.
    InvalidLiquidityAmount,
    /// The trading limit has been exceeded (sell) or not been reached (buy).
    AssetBalanceLimitExceeded,
    /// Asset balance is not sufficient.
    InsufficientAssetBalance,
    /// Not enough asset liquidity in the pool.
    InsufficientPoolAssetBalance,
    /// Not enough reference asset to pay a discounted fee.
    InsufficientHDXBalance,
    /// Liquidity pool for given assets does not exist.
    TokenPoolNotFound,
    /// Liquidity pool for given assets already exists.
    TokenPoolAlreadyExists,
    /// The amount of the second asset to add is invalid.
    AddAssetAmountInvalid,
    /// The amounts to remove are invalid.
    RemoveAssetAmountInvalid,
    /// The amount to receive from a sell is invalid.
    SellAssetAmountInvalid,
    /// The amount to pay for a buy is invalid.
    BuyAssetAmountInvalid,
    /// The fee overflows.
    FeeAmountInvalid,
    /// The discount cannot be applied.
    CannotApplyDiscount,
    /// Max fraction of pool to buy in single transaction has been exceeded.
    MaxOutRatioExceeded,
    /// Max fraction of pool to sell in single transaction has been exceeded.
    MaxInRatioExceeded,
    /// A balance would overflow.
    BalanceOverflow,
    /// No identifier is left for a new claim token.
    NoIdAvailable,
    /// Claim tokens are minted and burnt by the pools alone.
    ShareTokenNotEndowable,
    /// A pool's claim token cannot be one of its own assets.
    ShareTokenIsPoolAsset,
}

/// A validated swap: everything that executing it needs.
pub struct AMMTransfer {
    pub origin: AccountId,
    pub assets: AssetPair,
    /// Sell: the amount sold. Buy: the amount bought.
    pub amount: Balance,
    /// Sell: the amount received. Buy: the amount paid.
    pub amount_out: Balance,
    pub discount: bool,
    /// The fee to pay in the reference asset, if the discount applies.
    pub discount_amount: Balance,
}

/// A notification of a committed change.
#[derive(Clone, Debug, PartialEq, Eq)]
pub enum Event {
    /// Liquidity was added: who, asset a, asset b, amount a, amount b.
    LiquidityAdded(AccountId, AssetId, AssetId, Balance, Balance),
    /// Liquidity was removed: who, asset a, asset b, shares burnt.
    LiquidityRemoved(AccountId, AssetId, AssetId, Balance),
    /// A pool was created: who, asset a, asset b, initial shares.
    PoolCreated(AccountId, AssetId, AssetId, Balance),
    /// A pool was destroyed: who, asset a, asset b.
    PoolDestroyed(AccountId, AssetId, AssetId),
    /// A sale was executed: who, asset in, asset out, amount sold, amount received.
    SellExecuted(AccountId, AssetId, AssetId, Balance, Balance),
    /// A purchase was executed: who, asset out, asset in, amount bought, amount paid.
    BuyExecuted(AccountId, AssetId, AssetId, Balance, Balance),
}

/// An [`Event`] with the account as a sequence of bytes.
pub enum EventView {
    LiquidityAdded(Seq<u8>, AssetId, AssetId, Balance, Balance),
    LiquidityRemoved(Seq<u8>, AssetId, AssetId, Balance),
    PoolCreated(Seq<u8>, AssetId, AssetId, Balance),
    PoolDestroyed(Seq<u8>, AssetId, AssetId),
    SellExecuted(Seq<u8>, AssetId, AssetId, Balance, Balance),
    BuyExecuted(Seq<u8>, AssetId, AssetId, Balance, Balance),
}

impl View for Event {
    type V = EventView;

    open spec fn view(&self) -> EventView {
        match self {
            Event::LiquidityAdded(w, a, b, x, y) => EventView::LiquidityAdded(w@, *a, *b, *x, *y),
            Event::LiquidityRemoved(w, a, b, x) => EventView::LiquidityRemoved(w@, *a, *b, *x),
            Event::PoolCreated(w, a, b, x) => EventView::PoolCreated(w@, *a, *b, *x),
            Event::PoolDestroyed(w, a, b) => EventView::PoolDestroyed(w@, *a, *b),
            Event::SellExecuted(w, a, b, x, y) => EventView::SellExecuted(w@, *a, *b, *x, *y),
            Event::BuyExecuted(w, a, b, x, y) => EventView::BuyExecuted(w@, *a, *b, *x, *y),
        }
    }
}

} // verus!
