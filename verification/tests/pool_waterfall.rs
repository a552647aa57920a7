//! Configured waterfalls: registration, tier accounting and valuation.

use backstop::backstop::deposit::execute_deposit;
use backstop::backstop::pool::{
    asset_token, build_pool_valuation, calculate_q4w_percentage, from_factory_asset,
    is_blnd_emission_tier, load_pool_backstop_data, pool_backstop_config, quote_activation,
    quote_pool_lp_amounts, require_is_from_pool_factory, require_registered_pool, tier_asset,
    tier_config, tier_for_token, tier_from_index, tier_index, tier_token,
    unit_pool_tier_valuation, validate_backstop_assets, validate_comet,
    validate_pool_backstop_config, valuation_needs, ActivationQuote, ActivationValues,
    AssetDecimals, AssetValuation, BackstopAsset, BackstopAssets, BackstopTier, CometReading,
    CometTokens, PoolBackstopData, PoolBalance,
};
use backstop::backstop::user::UserBalance;
use backstop::backstop::withdrawal::{
    execute_dequeue_withdrawal, execute_queue_withdrawal, execute_withdraw, QueueLengths,
};
use backstop::constants::{ACTIVATION_THRESHOLD_USDC, MAX_Q4W_SIZE, Q4W_LOCK_TIME, SCALAR_7};
use backstop::dependencies::pool_factory::{
    BackstopAsset as FactoryBackstopAsset, BackstopTierConfig,
};
use backstop::emissions::tier_accounting::{PoolWeights, WeightStreams};
use backstop::errors::BackstopError;
use backstop::storage::PoolOngoingEmissions;
use soroban_sdk::testutils::EnvTestConfig;
use soroban_sdk::Env;

const ASSETS: BackstopAssets = BackstopAssets { blnd: 1, usdc: 2, xlm: 3, blnd_usdc: 4, blnd_xlm: 5 };
const DECIMALS: AssetDecimals =
    AssetDecimals { blnd: 7, usdc: 7, xlm: 7, blnd_usdc: 7, blnd_xlm: 7 };
const USER: u64 = 10;
const POOL: u64 = 11;
const BACKSTOP: u64 = 12;

fn env() -> Env {
    Env::new_with_config(EnvTestConfig { capture_snapshot_at_drop: false })
}

fn tier(asset: FactoryBackstopAsset, take_rate_weight: u32) -> BackstopTierConfig {
    BackstopTierConfig { asset, take_rate_weight }
}

fn three_tiers() -> Vec<BackstopTierConfig> {
    vec![
        tier(FactoryBackstopAsset::BlndXlm, 4),
        tier(FactoryBackstopAsset::BlndUsdc, 3),
        tier(FactoryBackstopAsset::Usdc, 2),
    ]
}

/// A Comet pool of 1,000 BLND and 25 of the pair token under 100 shares.
fn real_comet() -> CometReading {
    CometReading {
        total_supply: 100 * SCALAR_7,
        blnd_reserve: 1_000 * SCALAR_7,
        pair_reserve: 25 * SCALAR_7,
        blnd_weight: 8_000_000,
        pair_weight: 2_000_000,
    }
}

/// A Comet pool whose LP tokens are worth one USDC each.
fn unit_comet() -> CometReading {
    CometReading {
        total_supply: 1_000_000 * SCALAR_7,
        blnd_reserve: 7_000_000 * SCALAR_7,
        pair_reserve: 200_000 * SCALAR_7,
        blnd_weight: 8_000_000,
        pair_weight: 2_000_000,
    }
}

struct Tier {
    pool: PoolBalance,
    user: UserBalance,
    streams: WeightStreams,
    weights: PoolWeights,
}

impl Tier {
    fn new(asset: BackstopAsset) -> Self {
        Tier {
            pool: PoolBalance { shares: 0, tokens: 0, q4w: 0 },
            user: UserBalance { shares: 0, q4w: vec![] },
            streams: WeightStreams { emission: None, user: None },
            weights: PoolWeights {
                asset,
                state: PoolOngoingEmissions {
                    accrued_pool: 0,
                    active_blnd_usdc: 0,
                    active_blnd_xlm: 0,
                    backstop_tier_carry: 0,
                    pending_blnd_usdc: 0,
                    pending_blnd_xlm: 0,
                },
                blnd_usdc: None,
                blnd_xlm: None,
            },
        }
    }

    fn deposit(&mut self, e: &Env, amount: i128) -> Result<i128, BackstopError> {
        self.deposit_as(e, Ok(()), amount)
    }

    fn deposit_as(
        &mut self,
        e: &Env,
        registration: Result<(), BackstopError>,
        amount: i128,
    ) -> Result<i128, BackstopError> {
        execute_deposit(
            e,
            &mut self.pool,
            &mut self.user,
            &mut self.streams,
            &mut self.weights,
            USER,
            POOL,
            BACKSTOP,
            registration,
            Ok(true),
            amount,
            10_000,
        )
    }
}

fn three() -> [Tier; 3] {
    [
        Tier::new(BackstopAsset::BlndXlm),
        Tier::new(BackstopAsset::BlndUsdc),
        Tier::new(BackstopAsset::Usdc),
    ]
}

fn lengths(tiers: &[Tier; 3]) -> QueueLengths {
    QueueLengths {
        blnd_usdc: tiers[1].user.q4w.len() as u32,
        blnd_xlm: tiers[0].user.q4w.len() as u32,
        usdc: tiers[2].user.q4w.len() as u32,
    }
}

fn queue(e: &Env, tiers: &mut [Tier; 3], index: usize, amount: i128) -> Result<(), BackstopError> {
    let lengths = lengths(tiers);
    let tier = &mut tiers[index];
    execute_queue_withdrawal(
        e,
        &mut tier.pool,
        &mut tier.user,
        &mut tier.streams,
        &mut tier.weights,
        &lengths,
        Ok(true),
        amount,
        10_000,
    )
    .map(|_| ())
}

fn data(e: &Env, config: &Vec<BackstopTierConfig>, tiers: &[Tier; 3]) -> PoolBackstopData {
    let balances = vec![tiers[0].pool, tiers[1].pool, tiers[2].pool];
    load_pool_backstop_data(
        e,
        &ASSETS,
        config,
        &balances,
        Some(unit_comet()),
        Some(unit_comet()),
        true,
    )
    .unwrap()
}

#[test]
fn test_require_is_from_pool_factory() {
    assert_eq!(
        require_is_from_pool_factory(0, None, true, three_tiers(), &DECIMALS),
        Ok(())
    );
    assert_eq!(require_registered_pool(None, true, three_tiers(), &DECIMALS), Ok(()));
}

#[test]
fn test_require_is_from_pool_factory_skips_if_balance() {
    assert_eq!(require_is_from_pool_factory(1, None, false, vec![], &DECIMALS), Ok(()));
}

#[test]
fn test_require_is_from_pool_factory_not_valid() {
    let error = require_is_from_pool_factory(0, None, false, three_tiers(), &DECIMALS).unwrap_err();
    assert_eq!(error, BackstopError::NotPool);
    assert_eq!(error.code(), 1004);
    assert_eq!(
        require_registered_pool(None, false, three_tiers(), &DECIMALS),
        Err(BackstopError::NotPool)
    );
}

#[test]
fn a_recorded_config_is_not_checked_again() {
    let recorded = vec![tier(FactoryBackstopAsset::Usdc, 99)];
    let config =
        pool_backstop_config(Some(recorded), false, three_tiers(), &DECIMALS).unwrap();
    assert_eq!(config[0].take_rate_weight, 99);
    assert_eq!(
        require_registered_pool(Some(three_tiers()), false, vec![], &DECIMALS),
        Ok(())
    );
}

#[test]
fn tier_positions_round_trip() {
    for index in 0..3 {
        assert_eq!(tier_index(tier_from_index(index).unwrap()), index);
    }
    assert_eq!(tier_from_index(3), Err(BackstopError::BadRequest));
}

#[test]
fn pool_three_tiers_keep_pool_and_user_accounting_isolated() {
    let e = env();
    let config = three_tiers();
    let mut tiers = three();
    assert_eq!(tiers[1].deposit(&e, 100), Ok(100));
    assert_eq!(tiers[0].deposit(&e, 200), Ok(200));
    assert_eq!(tiers[2].deposit(&e, 300), Ok(300));

    assert_eq!(tier_token(&ASSETS, &config, BackstopTier::SecondLoss), Ok(ASSETS.blnd_usdc));
    assert_eq!(tier_token(&ASSETS, &config, BackstopTier::FirstLoss), Ok(ASSETS.blnd_xlm));
    assert_eq!(tier_token(&ASSETS, &config, BackstopTier::ThirdLoss), Ok(ASSETS.usdc));
    let pool_data = data(&e, &config, &tiers);
    assert_eq!(pool_data.tiers[1].tokens, 100);
    assert_eq!(pool_data.tiers[1].shares, 100);
    assert_eq!(pool_data.tiers[0].tokens, 200);
    assert_eq!(pool_data.tiers[0].shares, 200);
    assert_eq!(pool_data.tiers[2].tokens, 300);
    assert_eq!(pool_data.tiers[2].shares, 300);
    assert_eq!(tiers[2].user.shares, 300);
    assert!(tiers[2].user.q4w.is_empty());
}

#[test]
fn pool_q4w_limit_is_aggregate_and_withdrawal_is_tier_specific() {
    let e = env();
    let mut tiers = three();
    for tier in tiers.iter_mut() {
        tier.deposit(&e, 100).unwrap();
    }
    for _ in 0..10 {
        queue(&e, &mut tiers, 1, 1).unwrap();
    }
    for _ in 0..5 {
        queue(&e, &mut tiers, 0, 1).unwrap();
        queue(&e, &mut tiers, 2, 1).unwrap();
    }
    let total: usize = tiers.iter().map(|tier| tier.user.q4w.len()).sum();
    assert_eq!(total as u32, MAX_Q4W_SIZE);
    assert_eq!(queue(&e, &mut tiers, 2, 1), Err(BackstopError::TooManyQ4WEntries));

    let second = &mut tiers[1];
    execute_dequeue_withdrawal(
        &e,
        &mut second.pool,
        &mut second.user,
        &mut second.streams,
        &mut second.weights,
        Ok(true),
        1,
        10_000,
    )
    .unwrap();
    queue(&e, &mut tiers, 0, 1).unwrap();
    let first = &mut tiers[0];
    assert_eq!(
        execute_withdraw(
            &e,
            &mut first.pool,
            &mut first.user,
            &mut first.streams,
            &mut first.weights,
            false,
            Ok(true),
            6,
            10_000 + Q4W_LOCK_TIME + 1,
        ),
        Ok(6)
    );
    assert_eq!(first.user.shares, 94);
    assert!(first.user.q4w.is_empty());
    assert_eq!(first.pool, PoolBalance { shares: 94, tokens: 94, q4w: 0 });
}

#[test]
fn pool_deposit_requires_factory_registration_only() {
    let e = env();
    let mut third = Tier::new(BackstopAsset::Usdc);
    let unregistered = require_is_from_pool_factory(0, None, false, three_tiers(), &DECIMALS);
    assert_eq!(third.deposit_as(&e, unregistered, 100), Err(BackstopError::NotPool));
    assert_eq!(third.pool.tokens, 0);

    let registered = require_is_from_pool_factory(0, None, true, three_tiers(), &DECIMALS);
    assert_eq!(third.deposit_as(&e, registered, 100), Ok(100));
    assert_eq!(third.pool.tokens, 100);
}

#[test]
fn omitted_trailing_tiers_are_rejected_by_public_getters() {
    let config = vec![tier(FactoryBackstopAsset::Usdc, 1)];
    assert_eq!(
        tier_token(&ASSETS, &config, BackstopTier::SecondLoss),
        Err(BackstopError::BadRequest)
    );
    assert_eq!(
        tier_token(&ASSETS, &config, BackstopTier::ThirdLoss),
        Err(BackstopError::BadRequest)
    );
    assert_eq!(tier_config(&config, BackstopTier::FirstLoss), Ok(config[0]));
    assert_eq!(tier_asset(&config, BackstopTier::FirstLoss), Ok(BackstopAsset::Usdc));
}

#[test]
fn rejects_out_of_range_or_non_descending_tier_weights() {
    let excessive = vec![tier(FactoryBackstopAsset::Usdc, 11)];
    let equal = vec![tier(FactoryBackstopAsset::BlndXlm, 4), tier(FactoryBackstopAsset::Usdc, 4)];
    let ascending =
        vec![tier(FactoryBackstopAsset::BlndXlm, 3), tier(FactoryBackstopAsset::Usdc, 4)];
    for config in [excessive, equal, ascending, vec![]] {
        assert_eq!(
            validate_pool_backstop_config(&config, &DECIMALS),
            Err(BackstopError::InvalidBackstopValuation)
        );
    }
}

#[test]
fn configs_reject_decimals_and_duplicates() {
    let wrong = AssetDecimals { usdc: 6, ..DECIMALS };
    assert_eq!(
        validate_pool_backstop_config(&three_tiers(), &wrong),
        Err(BackstopError::InvalidBackstopValuation)
    );
    let twice = vec![tier(FactoryBackstopAsset::Xlm, 3), tier(FactoryBackstopAsset::Xlm, 2)];
    assert_eq!(
        validate_pool_backstop_config(&twice, &DECIMALS),
        Err(BackstopError::AssetConfigurationCollision)
    );
    let four = vec![
        tier(FactoryBackstopAsset::Xlm, 4),
        tier(FactoryBackstopAsset::Usdc, 3),
        tier(FactoryBackstopAsset::BlndUsdc, 2),
        tier(FactoryBackstopAsset::BlndXlm, 1),
    ];
    assert_eq!(
        validate_pool_backstop_config(&four, &DECIMALS),
        Err(BackstopError::InvalidBackstopValuation)
    );
    assert_eq!(validate_pool_backstop_config(&three_tiers(), &DECIMALS), Ok(()));
}

#[test]
fn tiers_are_found_by_token() {
    let config = three_tiers();
    assert_eq!(
        tier_for_token(&ASSETS, &config, ASSETS.blnd_usdc),
        Ok(Some(BackstopTier::SecondLoss))
    );
    assert_eq!(tier_for_token(&ASSETS, &config, ASSETS.xlm), Ok(None));
    assert_eq!(is_blnd_emission_tier(&config, BackstopTier::FirstLoss), Ok(true));
    assert_eq!(is_blnd_emission_tier(&config, BackstopTier::ThirdLoss), Ok(false));
    assert_eq!(asset_token(&ASSETS, BackstopAsset::Xlm), ASSETS.xlm);
    assert_eq!(from_factory_asset(FactoryBackstopAsset::BlndXlm), BackstopAsset::BlndXlm);
}

#[test]
fn backstop_assets_are_validated() {
    let usdc_pool =
        CometTokens { tokens: vec![1, 2], blnd_weight: 8_000_000, pair_weight: 2_000_000 };
    let xlm_pool =
        CometTokens { tokens: vec![3, 1], blnd_weight: 8_000_000, pair_weight: 2_000_000 };
    assert_eq!(validate_backstop_assets(&ASSETS, &DECIMALS, &usdc_pool, &xlm_pool), Ok(()));
    let collision = BackstopAssets { xlm: 2, ..ASSETS };
    assert_eq!(
        validate_backstop_assets(&collision, &DECIMALS, &usdc_pool, &xlm_pool),
        Err(BackstopError::AssetConfigurationCollision)
    );
    let decimals = AssetDecimals { blnd: 8, ..DECIMALS };
    assert_eq!(
        validate_backstop_assets(&ASSETS, &decimals, &usdc_pool, &xlm_pool),
        Err(BackstopError::InvalidBackstopValuation)
    );
    let weights =
        CometTokens { tokens: vec![1, 2], blnd_weight: 5_000_000, pair_weight: 5_000_000 };
    assert_eq!(validate_comet(&weights, 1, 2), Err(BackstopError::InvalidBackstopValuation));
    let third =
        CometTokens { tokens: vec![1, 2, 3], blnd_weight: 8_000_000, pair_weight: 2_000_000 };
    assert_eq!(validate_comet(&third, 1, 2), Err(BackstopError::InvalidBackstopValuation));
    assert_eq!(
        validate_backstop_assets(&ASSETS, &DECIMALS, &usdc_pool, &weights),
        Err(BackstopError::InvalidBackstopValuation)
    );
}

fn values(blnd_usdc: i128, blnd_xlm: i128, usdc: i128) -> ActivationValues {
    ActivationValues { tiers: vec![blnd_xlm, blnd_usdc, usdc] }
}

#[test]
fn activation_values_all_tiers_equally_and_uses_one_threshold() {
    let threshold = values(4_000 * SCALAR_7, 3_500 * SCALAR_7, 5_000 * SCALAR_7);
    assert_eq!(
        quote_activation(&threshold),
        Ok(ActivationQuote {
            eligible_value: ACTIVATION_THRESHOLD_USDC,
            meets_threshold: true,
            required_value: ACTIVATION_THRESHOLD_USDC,
        })
    );

    let below_threshold = values(0, 0, ACTIVATION_THRESHOLD_USDC - 1);
    assert!(!quote_activation(&below_threshold).unwrap().meets_threshold);
}

#[test]
fn activation_refuses_negative_and_overflowing_values() {
    assert_eq!(
        quote_activation(&values(1, -1, 1)),
        Err(BackstopError::InvalidActivationValue)
    );
    assert_eq!(
        quote_activation(&values(i128::MAX, 1, 0)),
        Err(BackstopError::OverflowError)
    );
}

#[test]
fn pool_integrated_comet_valuation_preserves_reserve_implied_formulas() {
    let e = env();
    let (blnd_usdc, blnd_xlm) = quote_pool_lp_amounts(
        &e,
        (20 * SCALAR_7, 0, 20 * SCALAR_7),
        (10 * SCALAR_7, 0, 10 * SCALAR_7),
        &real_comet(),
        &real_comet(),
    )
    .unwrap();
    assert_eq!(blnd_usdc.total, AssetValuation { usdc_value: 25 * SCALAR_7 });
    assert_eq!(blnd_xlm.total, AssetValuation { usdc_value: 125_000_000 });
}

#[test]
fn pool_q4w_percentage_uses_value_across_tiers_and_rounds_up() {
    let e = env();
    let active = values(4_000 * SCALAR_7, 3_000 * SCALAR_7, 0);
    let queued = values(0, 0, 3_000 * SCALAR_7);
    assert_eq!(calculate_q4w_percentage(&e, &active, &queued), Ok(3_000_000));

    let rounded =
        calculate_q4w_percentage(&e, &values(0, 0, 2 * SCALAR_7), &values(0, 0, SCALAR_7));
    assert_eq!(rounded, Ok(3_333_334));
    assert_eq!(calculate_q4w_percentage(&e, &values(0, 0, 0), &values(0, 0, 0)), Ok(0));
    assert_eq!(calculate_q4w_percentage(&e, &values(0, 0, 0), &values(0, 0, 1)), Ok(SCALAR_7));
}

#[test]
fn pool_canonical_pool_data_combines_tier_accounting_and_valuation() {
    let e = env();
    let config = three_tiers();
    let mut tiers = three();
    tiers[1].deposit(&e, 4_000 * SCALAR_7).unwrap();
    tiers[0].deposit(&e, 5_000 * SCALAR_7).unwrap();
    tiers[2].deposit(&e, 6_500 * SCALAR_7).unwrap();
    queue(&e, &mut tiers, 1, 1_000 * SCALAR_7).unwrap();
    queue(&e, &mut tiers, 0, 2_000 * SCALAR_7).unwrap();

    let pool_data = data(&e, &config, &tiers);
    let blnd_xlm_data = pool_data.tiers[0];
    assert_eq!(blnd_xlm_data.token, ASSETS.blnd_xlm);
    assert_eq!(blnd_xlm_data.tokens, 5_000 * SCALAR_7);
    assert_eq!(blnd_xlm_data.shares, 5_000 * SCALAR_7);
    assert_eq!(blnd_xlm_data.value, 5_000 * SCALAR_7);
    assert_eq!(blnd_xlm_data.take_rate_weight, 4);
    let blnd_usdc_data = pool_data.tiers[1];
    assert_eq!(blnd_usdc_data.token, ASSETS.blnd_usdc);
    assert_eq!(blnd_usdc_data.tokens, 4_000 * SCALAR_7);
    assert_eq!(blnd_usdc_data.shares, 4_000 * SCALAR_7);
    assert_eq!(blnd_usdc_data.value, 4_000 * SCALAR_7);
    assert_eq!(blnd_usdc_data.take_rate_weight, 3);
    let usdc_data = pool_data.tiers[2];
    assert_eq!(usdc_data.token, ASSETS.usdc);
    assert_eq!(usdc_data.tokens, 6_500 * SCALAR_7);
    assert_eq!(usdc_data.shares, 6_500 * SCALAR_7);
    assert_eq!(usdc_data.value, 6_500 * SCALAR_7);
    assert_eq!(usdc_data.take_rate_weight, 2);
    assert_eq!(pool_data.active_value, ACTIVATION_THRESHOLD_USDC);
    assert_eq!(pool_data.q4w_pct, 1_935_484);

    let balances = vec![tiers[0].pool, tiers[1].pool, tiers[2].pool];
    let valuation = build_pool_valuation(
        &e,
        &config,
        &balances,
        Some(unit_comet()),
        Some(unit_comet()),
        true,
    )
    .unwrap();
    let quote = quote_activation(&valuation.active_values).unwrap();
    assert_eq!(quote.eligible_value, ACTIVATION_THRESHOLD_USDC);
    assert!(quote.meets_threshold);
}

#[test]
fn deauthorized_usdc_has_zero_value_until_reauthorized() {
    let e = env();
    let config = vec![tier(FactoryBackstopAsset::Usdc, 1)];
    let mut first = Tier::new(BackstopAsset::Usdc);
    first.deposit(&e, ACTIVATION_THRESHOLD_USDC).unwrap();
    let balances = vec![first.pool];
    let read = |authorized: bool| {
        load_pool_backstop_data(&e, &ASSETS, &config, &balances, None, None, authorized).unwrap()
    };

    assert_eq!(read(true).active_value, ACTIVATION_THRESHOLD_USDC);
    let deauthorized = read(false);
    assert_eq!(deauthorized.active_value, 0);
    assert_eq!(deauthorized.q4w_pct, 0);
    assert_eq!(deauthorized.tiers[0].tokens, ACTIVATION_THRESHOLD_USDC);
    assert_eq!(deauthorized.tiers[0].shares, ACTIVATION_THRESHOLD_USDC);
    assert_eq!(deauthorized.tiers[0].value, 0);
    assert_eq!(read(true).active_value, ACTIVATION_THRESHOLD_USDC);
}

#[test]
fn xlm_tier_uses_the_canonical_comet_cross_price() {
    let e = env();
    let config = vec![tier(FactoryBackstopAsset::Xlm, 10)];
    let amount = ACTIVATION_THRESHOLD_USDC;
    let mut first = Tier::new(BackstopAsset::Xlm);
    first.deposit(&e, amount).unwrap();
    let balances = vec![first.pool];

    let data = load_pool_backstop_data(
        &e,
        &ASSETS,
        &config,
        &balances,
        Some(real_comet()),
        Some(real_comet()),
        true,
    )
    .unwrap();
    assert_eq!(data.tiers.len(), 1);
    let tier = data.tiers[0];
    assert_eq!(tier.asset, BackstopAsset::Xlm);
    assert_eq!(tier.token, ASSETS.xlm);
    assert_eq!(tier.take_rate_weight, 10);
    assert!(!tier.blnd_emission_eligible);
    assert_eq!(tier.value, ACTIVATION_THRESHOLD_USDC);
    assert_eq!(data.active_value, ACTIVATION_THRESHOLD_USDC);
}

#[test]
fn xlm_follows_both_pools() {
    let e = env();
    let config = vec![tier(FactoryBackstopAsset::Xlm, 10)];
    let balances = vec![PoolBalance { shares: 10, tokens: 10, q4w: 4 }];
    let anchor = CometReading { pair_reserve: 50 * SCALAR_7, ..real_comet() };
    let target = CometReading { blnd_reserve: 3_000 * SCALAR_7, ..real_comet() };
    let valuation =
        build_pool_valuation(&e, &config, &balances, Some(anchor), Some(target), true).unwrap();
    assert_eq!(valuation.active_values.tiers, vec![36]);
    assert_eq!(valuation.queued_values.tiers, vec![24]);
    assert_eq!(valuation.total_values.tiers, vec![60]);
}

#[test]
fn valuations_need_only_the_pools_that_price_them() {
    let config = three_tiers();
    let empty = PoolBalance { shares: 0, tokens: 0, q4w: 0 };
    let some = PoolBalance { shares: 10, tokens: 20, q4w: 3 };
    let needs = valuation_needs(&config, &vec![empty, empty, empty]).unwrap();
    assert!(!needs.any_tokens && !needs.anchor && !needs.target);
    let needs = valuation_needs(&config, &vec![empty, some, empty]).unwrap();
    assert!(needs.any_tokens && needs.anchor && !needs.target);
    assert_eq!(needs.amounts[1], (14, 6, 20));
    let needs = valuation_needs(&config, &vec![some, empty, empty]).unwrap();
    assert!(needs.anchor && needs.target);
    let needs = valuation_needs(&config, &vec![empty, empty, some]).unwrap();
    assert!(needs.any_tokens && !needs.anchor && !needs.target);
    let broken = PoolBalance { shares: 1, tokens: 1, q4w: 2 };
    assert_eq!(
        valuation_needs(&config, &vec![empty, broken, empty]).unwrap_err(),
        BackstopError::InvalidValuation
    );
}

#[test]
fn unusable_pools_fail_closed() {
    let e = env();
    let config = vec![tier(FactoryBackstopAsset::BlndUsdc, 1)];
    let balances = vec![PoolBalance { shares: 10, tokens: 10, q4w: 0 }];
    let quote = |anchor: Option<CometReading>| {
        build_pool_valuation(&e, &config, &balances, anchor, None, true).map(|_| ())
    };
    assert_eq!(quote(None), Err(BackstopError::InvalidValuation));
    let drained = CometReading { pair_reserve: 0, ..real_comet() };
    assert_eq!(quote(Some(drained)), Err(BackstopError::InvalidValuation));
    let weights = CometReading { blnd_weight: 5_000_000, ..real_comet() };
    assert_eq!(quote(Some(weights)), Err(BackstopError::InvalidValuation));
    let small = CometReading { total_supply: 9, ..real_comet() };
    assert_eq!(quote(Some(small)), Err(BackstopError::InvalidValuation));
    let huge = CometReading { pair_reserve: i128::MAX, ..real_comet() };
    assert_eq!(quote(Some(huge)), Err(BackstopError::OverflowError));
    assert_eq!(quote(Some(real_comet())), Ok(()));
}

#[test]
fn a_pool_without_tokens_is_worth_nothing() {
    let e = env();
    let empty = PoolBalance { shares: 0, tokens: 0, q4w: 0 };
    let valuation =
        build_pool_valuation(&e, &three_tiers(), &vec![empty, empty, empty], None, None, false)
            .unwrap();
    assert_eq!(valuation.total_values.tiers, vec![0, 0, 0]);
    assert_eq!(unit_pool_tier_valuation((1, 2, 3)).queued, AssetValuation { usdc_value: 2 });
}
