//! Emission shares by BLND.

use backstop::backstop::pool::PoolBalance;
use backstop::constants::SCALAR_7;
use backstop::emissions::policy::{
    comet_composition, eligible_blnt, pool_active_emission_assets, pool_spot_blnt_emission_weight,
    proportional_floor, quote_ongoing_blnt_split, quote_pool_blnt_emissions,
    quote_user_blnt_emissions, spot_underlying_blnt_for_token, underlying_blnt_from_composition,
    BlntEmissionQuote, BlntEmissionValues, LpPosition,
};
use backstop::errors::BackstopError;
use soroban_sdk::testutils::EnvTestConfig;
use soroban_sdk::Env;

fn env() -> Env {
    Env::new_with_config(EnvTestConfig { capture_snapshot_at_drop: false })
}

#[test]
fn ongoing_split_conserves_carry() {
    let e = env();
    let first = quote_ongoing_blnt_split(&e, 11, 0).unwrap();
    assert_eq!(first, (7, 3, 1));
    assert_eq!(quote_ongoing_blnt_split(&e, 9, first.2), Ok((7, 3, 0)));
}

#[test]
fn pool_quote_uses_both_blnt_tiers_and_membership() {
    let e = env();
    let values = BlntEmissionValues { blnt_usdc: 60 * SCALAR_7, blnt_xlm: 40 * SCALAR_7 };

    assert_eq!(
        quote_pool_blnt_emissions(&e, 1_000 * SCALAR_7, &values, 400 * SCALAR_7, true),
        Ok(BlntEmissionQuote { allocation: 250 * SCALAR_7, eligible_blnt: 100 * SCALAR_7 })
    );
    assert_eq!(
        quote_pool_blnt_emissions(&e, 1_000 * SCALAR_7, &values, 400 * SCALAR_7, false),
        Ok(BlntEmissionQuote { allocation: 0, eligible_blnt: 100 * SCALAR_7 })
    );
}

#[test]
fn user_quote_uses_both_blnt_tiers() {
    let e = env();
    let values = BlntEmissionValues { blnt_usdc: 15 * SCALAR_7, blnt_xlm: 10 * SCALAR_7 };
    assert_eq!(
        quote_user_blnt_emissions(&e, 200 * SCALAR_7, &values, 100 * SCALAR_7),
        Ok(BlntEmissionQuote { allocation: 50 * SCALAR_7, eligible_blnt: 25 * SCALAR_7 })
    );
}

#[test]
fn policy_rejects_invalid_values_and_handles_wide_products() {
    let e = env();
    let widest = BlntEmissionValues { blnt_usdc: i128::MAX, blnt_xlm: 0 };
    assert_eq!(
        quote_pool_blnt_emissions(&e, i128::MAX, &widest, i128::MAX, true).unwrap().allocation,
        i128::MAX
    );

    let negative = BlntEmissionValues { blnt_usdc: -1, blnt_xlm: 0 };
    assert!(quote_user_blnt_emissions(&e, SCALAR_7, &negative, SCALAR_7).is_err());

    let two = BlntEmissionValues { blnt_usdc: 2, blnt_xlm: 0 };
    assert!(quote_pool_blnt_emissions(&e, SCALAR_7, &two, 1, true).is_err());

    assert!(quote_ongoing_blnt_split(&e, i128::MAX, 1).is_err());
}

#[test]
fn values_add_up_or_overflow() {
    let sum = |blnt_usdc, blnt_xlm| eligible_blnt(&BlntEmissionValues { blnt_usdc, blnt_xlm });
    assert_eq!(sum(2, 3), Ok(5));
    assert_eq!(sum(-1, 3), Err(BackstopError::InvalidEmissionValue));
    assert_eq!(sum(i128::MAX, 1), Err(BackstopError::OverflowError));
}

#[test]
fn weights_are_the_blnd_behind_active_shares() {
    let e = env();
    let balance = PoolBalance { shares: 10, tokens: 30, q4w: 4 };
    assert_eq!(pool_active_emission_assets(&balance), Ok(18));
    let broken = PoolBalance { shares: 10, tokens: 30, q4w: 11 };
    assert_eq!(
        pool_active_emission_assets(&broken),
        Err(BackstopError::InvalidEmissionValue)
    );
    let position = Some(LpPosition { balance, total_supply: 100, blnt_reserve: 250 });
    assert_eq!(spot_underlying_blnt_for_token(&e, &position), Ok(45));
    assert_eq!(spot_underlying_blnt_for_token(&e, &None), Ok(0));
    assert_eq!(pool_spot_blnt_emission_weight(&e, &position, &position), Ok(90));
    let drained = Some(LpPosition { balance, total_supply: 0, blnt_reserve: 250 });
    assert_eq!(
        pool_spot_blnt_emission_weight(&e, &position, &drained),
        Err(BackstopError::InvalidEmissionValue)
    );
}

#[test]
fn compositions_are_checked() {
    let e = env();
    let invalid = Err(BackstopError::InvalidEmissionValue);
    assert_eq!(comet_composition(true, 1, 0), Ok((1, 0)));
    assert_eq!(comet_composition(false, 1, 0), invalid);
    assert_eq!(comet_composition(true, 0, 0), invalid);
    assert_eq!(comet_composition(true, 1, -1), invalid);
    assert_eq!(underlying_blnt_from_composition(&e, 3, 10, 25), Ok(7));
    assert_eq!(
        underlying_blnt_from_composition(&e, 11, 10, 25),
        Err(BackstopError::InvalidEmissionValue)
    );
    assert_eq!(proportional_floor(&e, 7, 3, 2), Ok(10));
    assert_eq!(proportional_floor(&e, i128::MAX, 2, 1), Err(BackstopError::OverflowError));
    assert_eq!(proportional_floor(&e, 1, 1, 0), Err(BackstopError::InvalidEmissionValue));
}
