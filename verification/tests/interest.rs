//! Allocation of the take rate.

use backstop::backstop::interest::{
    build_take_rate_values, quote_pool_take_rate_batch, quote_take_rate, quote_tier_value,
    TakeRateQuote, TakeRateValues,
};
use backstop::backstop::pool::PoolBalance;
use backstop::backstop::valuation::TierBalances;
use backstop::dependencies::backstop_valuation::AssetValuation;
use backstop::errors::BackstopError;
use soroban_sdk::testutils::EnvTestConfig;
use soroban_sdk::Env;

fn env() -> Env {
    Env::new_with_config(EnvTestConfig { capture_snapshot_at_drop: false })
}

fn values(blnd_usdc: i128, blnd_xlm: i128, usdc: i128) -> TakeRateValues {
    TakeRateValues { blnd_usdc, blnd_xlm, usdc }
}

fn balance(tokens: i128) -> PoolBalance {
    PoolBalance { shares: tokens, tokens, q4w: 0 }
}

#[test]
fn take_rate_quote_applies_canonical_weights() {
    let e = env();
    let quote = quote_take_rate(&e, 90, &values(1, 1, 1));
    assert_eq!(
        quote,
        Ok(TakeRateQuote { blnd_usdc: 30, blnd_xlm: 40, remainder: 0, usdc: 20 })
    );
}

#[test]
fn take_rate_quote_conserves_rounding_remainder() {
    let e = env();
    let quote = quote_take_rate(&e, 10, &values(3, 2, 1)).unwrap();
    assert_eq!(quote.blnd_usdc + quote.blnd_xlm + quote.usdc + quote.remainder, 10);
    assert_eq!(quote.remainder, 1);
}

#[test]
fn take_rate_quotes_check_their_values() {
    let e = env();
    assert_eq!(
        quote_take_rate(&e, 10, &values(0, 0, 0)),
        Ok(TakeRateQuote { blnd_usdc: 0, blnd_xlm: 0, remainder: 10, usdc: 0 })
    );
    for (distribution, values) in
        [(-1, values(1, 1, 1)), (1, values(-1, 1, 1)), (1, values(1, -1, 1)), (1, values(1, 1, -1))]
    {
        assert_eq!(
            quote_take_rate(&e, distribution, &values),
            Err(BackstopError::InvalidTakeRateValue)
        );
    }
    assert_eq!(
        quote_take_rate(&e, 1, &values(i128::MAX, 0, 0)),
        Err(BackstopError::OverflowError)
    );
    let large = i128::MAX / 3;
    assert_eq!(
        quote_take_rate(&e, i128::MAX, &values(large, 0, 0)),
        Ok(TakeRateQuote { blnd_usdc: i128::MAX, blnd_xlm: 0, remainder: 0, usdc: 0 })
    );
}

#[test]
fn tiers_are_valued_at_their_price() {
    let price = AssetValuation { underlying_blnd: 1, usdc_value: 42, valid_until: 100 };
    assert_eq!(quote_tier_value(&balance(5), Some(price), 100), Ok(42));
    assert_eq!(
        quote_tier_value(&balance(5), Some(price), 101),
        Err(BackstopError::StaleValuation)
    );
    assert_eq!(quote_tier_value(&balance(0), None, 101), Ok(0));
    assert_eq!(
        quote_tier_value(&balance(-1), None, 101),
        Err(BackstopError::InvalidValuation)
    );
    let negative = AssetValuation { usdc_value: -1, ..price };
    assert_eq!(
        quote_tier_value(&balance(5), Some(negative), 100),
        Err(BackstopError::InvalidValuation)
    );
    let tiers = TierBalances { blnd_usdc: balance(5), blnd_xlm: balance(0), usdc: balance(7) };
    assert_eq!(build_take_rate_values(&tiers, Some(price), None, 0), Ok(values(42, 0, 7)));
}

#[test]
fn batches_are_bounded() {
    let e = env();
    let tiers = TierBalances { blnd_usdc: balance(0), blnd_xlm: balance(0), usdc: balance(7) };
    let batch = |is_pool, distributions: Vec<(u64, i128)>| {
        quote_pool_take_rate_batch(&e, is_pool, &distributions, &tiers, None, None, 0)
    };
    assert_eq!(batch(false, vec![]), Err(BackstopError::NotPool));
    assert_eq!(batch(true, vec![]), Err(BackstopError::InvalidTakeRateValue));
    assert_eq!(batch(true, vec![(1, 1); 5]), Err(BackstopError::InvalidTakeRateValue));
    assert_eq!(
        batch(true, vec![(1, 10), (2, 20)]),
        Ok(vec![
            (1, TakeRateQuote { blnd_usdc: 0, blnd_xlm: 0, remainder: 0, usdc: 10 }),
            (2, TakeRateQuote { blnd_usdc: 0, blnd_xlm: 0, remainder: 0, usdc: 20 }),
        ])
    );
    assert_eq!(
        batch(true, vec![(1, 10), (2, -1)]),
        Err(BackstopError::InvalidTakeRateValue)
    );
}
