use amm::account::AssetPairAccountId;
use amm::amm::Pallet;
use amm::fee::{calculate_fees, discounted_fee, just_fee};
use amm::types::{AccountId, AssetPair, Config, Error, Event, Fee, Price, MAX_IN_RATIO, MAX_OUT_RATIO};

const HDX: u32 = 0;
const ACA: u32 = 1;
const DOT: u32 = 2;
const SHARE_TOKENS_FROM: u32 = 1000;

fn alice() -> AccountId {
    b"alice".to_vec()
}

fn bob() -> AccountId {
    b"bob".to_vec()
}

fn config(numerator: u32, denominator: u32) -> Config {
    Config {
        exchange_fee: Fee { numerator, denominator },
        max_in_ratio: MAX_IN_RATIO,
        max_out_ratio: MAX_OUT_RATIO,
        hdx_asset_id: HDX,
    }
}

fn pallet_with(fee_numerator: u32, fee_denominator: u32) -> Pallet {
    let mut p = Pallet::new(config(fee_numerator, fee_denominator), SHARE_TOKENS_FROM);
    for asset in [HDX, ACA, DOT] {
        p.endow(asset, &alice(), 1_000_000).unwrap();
    }
    p
}

fn pair(asset_in: u32, asset_out: u32) -> AssetPair {
    AssetPair { asset_in, asset_out }
}

#[test]
fn pool_account_does_not_depend_on_order() {
    let ab = AssetPairAccountId::from_assets(ACA, DOT);
    let ba = AssetPairAccountId::from_assets(DOT, ACA);
    assert_eq!(ab, ba);
    assert_eq!(ab.len(), 32);
    assert_ne!(ab, AssetPairAccountId::from_assets(ACA, HDX));
}

#[test]
fn zero_fee_sell_follows_constant_product() {
    let mut p = pallet_with(0, 1000);
    p.create_pool(&alice(), ACA, DOT, 1000, Price::from_integer(2)).unwrap();
    let acct = p.get_pair_id(pair(ACA, DOT));
    assert_eq!(p.free_balance(ACA, &acct), 1000);
    assert_eq!(p.free_balance(DOT, &acct), 2000);

    let t = p.validate_sell(&alice(), pair(ACA, DOT), 100, 0, false).unwrap();
    assert_eq!(t.amount_out, 181);
    assert_eq!(t.discount_amount, 0);

    p.sell(&alice(), pair(ACA, DOT), 100, 181, false).unwrap();
    assert_eq!(p.free_balance(ACA, &acct), 1100);
    assert_eq!(p.free_balance(DOT, &acct), 1819);
    assert_eq!(p.free_balance(ACA, &alice()), 1_000_000 - 1000 - 100);
    assert_eq!(p.free_balance(DOT, &alice()), 1_000_000 - 2000 + 181);
}

#[test]
fn sell_over_ratio_is_refused() {
    let mut p = pallet_with(0, 1000);
    p.create_pool(&alice(), ACA, DOT, 1000, Price::from_integer(2)).unwrap();
    let acct = p.get_pair_id(pair(ACA, DOT));
    assert_eq!(p.sell(&alice(), pair(ACA, DOT), 334, 0, false), Err(Error::MaxInRatioExceeded));
    assert_eq!(p.free_balance(ACA, &acct), 1000);
    assert_eq!(p.free_balance(DOT, &acct), 2000);
    assert!(p.sell(&alice(), pair(ACA, DOT), 333, 0, false).is_ok());
}

#[test]
fn sell_with_fee_conserves_reserves() {
    let mut p = pallet_with(2, 1000);
    p.create_pool(&alice(), ACA, DOT, 100_000, Price::from_integer(2)).unwrap();
    let acct = p.get_pair_id(pair(ACA, DOT));
    p.sell(&alice(), pair(ACA, DOT), 10_000, 0, false).unwrap();
    assert_eq!(p.free_balance(ACA, &acct), 110_000);
    assert_eq!(p.free_balance(DOT, &acct), 200_000 - 18_148);
    // Without the fee the formula gives more.
    assert!(18_148 < 200_000u128 * 10_000 / 110_000);
}

#[test]
fn sell_below_limit_is_refused() {
    let mut p = pallet_with(0, 1000);
    p.create_pool(&alice(), ACA, DOT, 1000, Price::from_integer(2)).unwrap();
    assert_eq!(p.sell(&alice(), pair(ACA, DOT), 100, 182, false), Err(Error::AssetBalanceLimitExceeded));
}

#[test]
fn buy_pays_rounded_up_price() {
    let mut p = pallet_with(2, 1000);
    p.create_pool(&alice(), ACA, DOT, 100_000, Price::from_integer(2)).unwrap();
    let acct = p.get_pair_id(pair(ACA, DOT));
    let t = p.validate_buy(&alice(), pair(ACA, DOT), 1000, 1_000_000, false).unwrap();
    assert_eq!(t.amount_out, 504);
    p.buy(&alice(), pair(ACA, DOT), 1000, 504, false).unwrap();
    assert_eq!(p.free_balance(ACA, &acct), 100_504);
    assert_eq!(p.free_balance(DOT, &acct), 199_000);
    assert_eq!(p.buy(&alice(), pair(ACA, DOT), 1000, 10, false), Err(Error::AssetBalanceLimitExceeded));
}

#[test]
fn buy_over_ratio_is_refused() {
    let mut p = pallet_with(2, 1000);
    p.create_pool(&alice(), ACA, DOT, 1000, Price::from_integer(2)).unwrap();
    assert_eq!(p.buy(&alice(), pair(ACA, DOT), 667, 1_000_000, false), Err(Error::MaxOutRatioExceeded));
    assert_eq!(p.buy(&alice(), pair(ACA, DOT), 2000, 1_000_000, false), Err(Error::InsufficientPoolAssetBalance));
}

#[test]
fn add_liquidity_mints_anchor_amount() {
    let mut p = pallet_with(2, 1000);
    p.create_pool(&alice(), ACA, DOT, 100_000, Price::from_integer(2)).unwrap();
    let acct = p.get_pair_id(pair(ACA, DOT));
    assert_eq!(p.total_liquidity(&acct), 100_000);
    p.add_liquidity(&alice(), ACA, DOT, 1000, 5000).unwrap();
    assert_eq!(p.free_balance(ACA, &acct), 101_000);
    assert_eq!(p.free_balance(DOT, &acct), 202_000);
    assert_eq!(p.total_liquidity(&acct), 101_000);
    let token = p.share_token(&acct).unwrap();
    assert_eq!(token, SHARE_TOKENS_FROM);
    assert_eq!(p.free_balance(token, &alice()), 101_000);

    // With the larger identifier first, the shares follow the second asset.
    p.add_liquidity(&alice(), DOT, ACA, 2020, 5000).unwrap();
    assert_eq!(p.free_balance(ACA, &acct), 102_010);
    assert_eq!(p.total_liquidity(&acct), 102_010);
}

#[test]
fn add_liquidity_errors() {
    let mut p = pallet_with(2, 1000);
    assert_eq!(p.add_liquidity(&alice(), ACA, DOT, 1000, 5000), Err(Error::TokenPoolNotFound));
    p.create_pool(&alice(), ACA, DOT, 100_000, Price::from_integer(2)).unwrap();
    assert_eq!(p.add_liquidity(&alice(), ACA, DOT, 0, 5000), Err(Error::CannotAddZeroLiquidity));
    assert_eq!(p.add_liquidity(&alice(), ACA, DOT, 1000, 0), Err(Error::CannotAddZeroLiquidity));
    assert_eq!(p.add_liquidity(&alice(), ACA, DOT, 1000, 1999), Err(Error::AssetBalanceLimitExceeded));
    assert_eq!(p.add_liquidity(&bob(), ACA, DOT, 1000, 5000), Err(Error::InsufficientAssetBalance));
}

#[test]
fn add_then_remove_restores_supply() {
    let mut p = pallet_with(2, 1000);
    p.create_pool(&alice(), ACA, DOT, 100_000, Price::from_integer(2)).unwrap();
    let acct = p.get_pair_id(pair(ACA, DOT));
    p.add_liquidity(&alice(), ACA, DOT, 1000, 5000).unwrap();
    p.remove_liquidity(&alice(), ACA, DOT, 1000).unwrap();
    assert_eq!(p.total_liquidity(&acct), 100_000);
    assert_eq!(p.free_balance(ACA, &acct), 100_000);
    assert_eq!(p.free_balance(DOT, &acct), 200_000);
    assert_eq!(p.free_balance(ACA, &alice()), 900_000);
}

#[test]
fn removing_all_shares_destroys_pool() {
    let mut p = pallet_with(2, 1000);
    p.create_pool(&alice(), ACA, DOT, 1000, Price::from_integer(2)).unwrap();
    let acct = p.get_pair_id(pair(ACA, DOT));
    p.remove_liquidity(&alice(), ACA, DOT, 1000).unwrap();
    assert!(!p.pool_exists(pair(ACA, DOT)));
    assert_eq!(p.get_pool_assets(&acct), None);
    assert_eq!(p.free_balance(ACA, &alice()), 1_000_000);
    assert_eq!(p.add_liquidity(&alice(), ACA, DOT, 10, 100), Err(Error::TokenPoolNotFound));
    p.create_pool(&alice(), DOT, ACA, 500, Price::from_integer(3)).unwrap();
    assert_eq!(p.share_token(&acct), Some(SHARE_TOKENS_FROM));
    assert_eq!(p.total_liquidity(&acct), 1500);
}

#[test]
fn remove_liquidity_errors() {
    let mut p = pallet_with(2, 1000);
    assert_eq!(p.remove_liquidity(&alice(), ACA, DOT, 0), Err(Error::CannotRemoveLiquidityWithZero));
    assert_eq!(p.remove_liquidity(&alice(), ACA, DOT, 10), Err(Error::TokenPoolNotFound));
    p.create_pool(&alice(), ACA, DOT, 1000, Price::from_integer(2)).unwrap();
    assert_eq!(p.remove_liquidity(&alice(), ACA, DOT, 1001), Err(Error::InsufficientAssetBalance));
    assert_eq!(p.remove_liquidity(&bob(), ACA, DOT, 10), Err(Error::InsufficientAssetBalance));
}

#[test]
fn create_pool_errors() {
    let mut p = pallet_with(2, 1000);
    assert_eq!(p.create_pool(&alice(), ACA, DOT, 0, Price::from_integer(2)), Err(Error::CannotCreatePoolWithZeroLiquidity));
    assert_eq!(p.create_pool(&alice(), ACA, DOT, 10, Price { inner: 0 }), Err(Error::CannotCreatePoolWithZeroInitialPrice));
    assert_eq!(p.create_pool(&alice(), ACA, ACA, 10, Price::from_integer(2)), Err(Error::CannotCreatePoolWithSameAssets));
    assert_eq!(p.create_pool(&alice(), ACA, DOT, 1 << 127, Price::from_integer(2)), Err(Error::CreatePoolAssetAmountInvalid));
    assert_eq!(p.create_pool(&bob(), ACA, DOT, 10, Price::from_integer(2)), Err(Error::InsufficientAssetBalance));
    // Half a unit of the second asset rounds to no claim token at all.
    assert_eq!(p.create_pool(&alice(), DOT, ACA, 1, Price { inner: 500_000_000_000_000_000 }), Err(Error::InvalidMintedLiquidity));
    p.create_pool(&alice(), ACA, DOT, 10, Price::from_integer(2)).unwrap();
    assert_eq!(p.create_pool(&alice(), DOT, ACA, 10, Price::from_integer(2)), Err(Error::TokenPoolAlreadyExists));
}

#[test]
fn create_pool_with_no_identifier_left() {
    let mut p = Pallet::new(config(2, 1000), u32::MAX);
    p.endow(ACA, &alice(), 100).unwrap();
    p.endow(DOT, &alice(), 100).unwrap();
    assert_eq!(p.create_pool(&alice(), ACA, DOT, 10, Price::from_integer(2)), Err(Error::NoIdAvailable));
    assert_eq!(p.free_balance(ACA, &alice()), 100);
}

#[test]
fn fractional_price_rounds_down() {
    let mut p = pallet_with(2, 1000);
    // One and a half.
    let price = Price { inner: 1_500_000_000_000_000_000 };
    p.create_pool(&alice(), DOT, ACA, 101, price).unwrap();
    let acct = p.get_pair_id(pair(ACA, DOT));
    assert_eq!(p.free_balance(ACA, &acct), 151);
    assert_eq!(p.total_liquidity(&acct), 151);
}

#[test]
fn discounted_sell_charges_reference_asset() {
    let mut p = pallet_with(2, 1000);
    p.create_pool(&alice(), ACA, DOT, 100_000, Price::from_integer(2)).unwrap();
    assert_eq!(p.sell(&alice(), pair(ACA, DOT), 10_000, 0, true), Err(Error::CannotApplyDiscount));
    p.create_pool(&alice(), ACA, HDX, 10_000, Price::from_integer(1)).unwrap();
    let t = p.validate_sell(&alice(), pair(ACA, DOT), 10_000, 0, true).unwrap();
    assert_eq!(t.amount_out, 18_170);
    assert_eq!(t.discount_amount, 7);
    let hdx_before = p.free_balance(HDX, &alice());
    p.execute_sell(&t).unwrap();
    assert_eq!(p.free_balance(HDX, &alice()), hdx_before - 7);

    p.endow(ACA, &bob(), 10_000).unwrap();
    assert_eq!(p.sell(&bob(), pair(ACA, DOT), 10_000, 0, true), Err(Error::InsufficientHDXBalance));
    assert_eq!(p.free_balance(ACA, &bob()), 10_000);
}

#[test]
fn sell_errors() {
    let mut p = pallet_with(2, 1000);
    assert_eq!(p.sell(&alice(), pair(ACA, DOT), 10, 0, false), Err(Error::TokenPoolNotFound));
    assert_eq!(p.sell(&bob(), pair(ACA, DOT), 10, 0, false), Err(Error::InsufficientAssetBalance));
    assert_eq!(p.buy(&alice(), pair(ACA, DOT), 10, 100, false), Err(Error::TokenPoolNotFound));
}

#[test]
fn pool_queries() {
    let mut p = pallet_with(2, 1000);
    p.create_pool(&alice(), ACA, DOT, 1000, Price::from_integer(2)).unwrap();
    let acct = p.get_pair_id(pair(DOT, ACA));
    assert_eq!(p.get_pool_assets(&acct), Some(vec![ACA, DOT]));
    assert_eq!(p.get_pool_balances(&acct), Some(vec![(ACA, 1000), (DOT, 2000)]));
    assert_eq!(p.get_pool_balances(&alice()), Some(vec![]));
    assert_eq!(p.get_spot_price_unchecked(ACA, DOT, 100), 200);
    assert_eq!(p.get_spot_price_unchecked(ACA, HDX, 100), 0);
}

#[test]
fn fees() {
    assert_eq!(just_fee(1000, Fee { numerator: 2, denominator: 1000 }), Some(2));
    assert_eq!(just_fee(1000, Fee { numerator: 2, denominator: 0 }), None);
    assert_eq!(just_fee(u128::MAX, Fee { numerator: 2, denominator: 1000 }), None);
    assert_eq!(discounted_fee(10_000), Some(7));
    let mut hdx = 5;
    assert_eq!(calculate_fees(10_000, false, Fee { numerator: 2, denominator: 1000 }, &mut hdx), Ok(20));
    assert_eq!(hdx, 0);
    assert_eq!(calculate_fees(10_000, true, Fee { numerator: 2, denominator: 1000 }, &mut hdx), Ok(7));
    assert_eq!(hdx, 7);
    assert_eq!(calculate_fees(u128::MAX, true, Fee { numerator: 2, denominator: 1000 }, &mut hdx), Err(Error::FeeAmountInvalid));
    assert_eq!(hdx, 7);
    assert_eq!(calculate_fees(u128::MAX, false, Fee { numerator: 2, denominator: 1000 }, &mut hdx), Err(Error::FeeAmountInvalid));
    assert_eq!(hdx, 0);
}

#[test]
fn committed_changes_are_notified() {
    let mut p = pallet_with(0, 1000);
    p.create_pool(&alice(), ACA, DOT, 1000, Price::from_integer(2)).unwrap();
    p.add_liquidity(&alice(), ACA, DOT, 100, 1000).unwrap();
    assert_eq!(p.sell(&alice(), pair(ACA, DOT), 10_000, 0, false), Err(Error::MaxInRatioExceeded));
    p.sell(&alice(), pair(ACA, DOT), 100, 0, false).unwrap();
    p.buy(&alice(), pair(ACA, DOT), 100, 1000, false).unwrap();
    p.remove_liquidity(&alice(), ACA, DOT, 1100).unwrap();
    let events = p.take_events();
    assert_eq!(
        events,
        vec![
            Event::PoolCreated(alice(), ACA, DOT, 1000),
            Event::LiquidityAdded(alice(), ACA, DOT, 100, 200),
            Event::SellExecuted(alice(), ACA, DOT, 100, 183),
            Event::BuyExecuted(alice(), DOT, ACA, 100, 63),
            Event::LiquidityRemoved(alice(), ACA, DOT, 1100),
            Event::PoolDestroyed(alice(), ACA, DOT),
        ]
    );
    assert!(p.events().is_empty());
}

#[test]
fn large_pool_is_created_at_full_width() {
    let mut p = Pallet::new(config(2, 1000), SHARE_TOKENS_FROM);
    p.endow(ACA, &alice(), 1 << 100).unwrap();
    p.endow(DOT, &alice(), 1 << 102).unwrap();
    p.create_pool(&alice(), ACA, DOT, 1 << 100, Price::from_integer(2)).unwrap();
    let acct = p.get_pair_id(pair(ACA, DOT));
    assert_eq!(p.free_balance(ACA, &acct), 1 << 100);
    assert_eq!(p.free_balance(DOT, &acct), 1 << 101);
}

#[test]
fn price_multiplication() {
    assert_eq!(Price::from_integer(2).checked_mul_int(1 << 126), Some(1 << 127));
    assert_eq!(Price::from_integer(2).checked_mul_int(1 << 127), None);
    assert_eq!(Price { inner: 1_500_000_000_000_000_000 }.checked_mul_int(u128::MAX / 2), Some(u128::MAX / 4 * 3 + 1));
    assert_eq!(Price { inner: 1 }.checked_mul_int(999_999_999_999_999_999), Some(0));
    assert_eq!(Price { inner: u128::MAX }.checked_mul_int(1_000_000_000_000_000_000), Some(u128::MAX));
}

#[test]
fn claim_tokens_cannot_be_endowed() {
    let mut p = pallet_with(2, 1000);
    assert_eq!(p.endow(SHARE_TOKENS_FROM, &alice(), 10), Err(Error::ShareTokenNotEndowable));
    assert_eq!(p.endow(SHARE_TOKENS_FROM + 7, &alice(), 10), Err(Error::ShareTokenNotEndowable));
    assert_eq!(p.free_balance(SHARE_TOKENS_FROM, &alice()), 0);
}
