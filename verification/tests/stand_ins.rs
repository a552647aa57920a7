//! The price oracle and the stand-ins for neighbouring contracts.

use std::collections::HashMap;

use backstop::dependencies::backstop_valuation::{AssetValuation, BackstopValuationBinding};
use backstop::mocks::backstop_valuation::{MockBackstopValuation, MockBackstopValuationError};
use backstop::mocks::emitter::{EmitterError, MockEmitter, MAX_DROP};
use backstop::mocks::pool::{MockPool, Positions};
use backstop::oracle::{price_key, MockPriceOracle, PriceData, PriceOracleError, MAX_RECORDS};

fn oracle() -> MockPriceOracle {
    let mut oracle = MockPriceOracle {
        assets: vec![],
        indexes: HashMap::new(),
        records: HashMap::new(),
        base: 0,
        decimals: 0,
        resolution: 0,
        last_timestamp: 0,
    };
    oracle.set_data(9, vec![100, 200], 7, 300);
    oracle
}

#[test]
fn prices_are_read_back() {
    let mut oracle = oracle();
    assert_eq!((oracle.base, oracle.decimals, oracle.resolution), (9, 7, 300));
    assert_eq!(oracle.assets, vec![100, 200]);
    assert_eq!(oracle.asset_index(200), Ok(1));
    oracle.set_price(&vec![5, 6], 1_200);
    let price = PriceData { price: 6, timestamp: 1_200 };
    assert_eq!(oracle.lastprice(200, 7_000), Ok(Some(price)));
    assert_eq!(oracle.price(200, 1_200, 7_000), Ok(Some(price)));
    assert_eq!(oracle.price(200, 900, 7_000), Ok(None));
    assert_eq!(oracle.price(300, 900, 7_000), Err(PriceOracleError::AssetMissing));
    assert_eq!(PriceOracleError::AssetMissing.code(), 2);
}

#[test]
fn stable_prices_hold_now() {
    let mut oracle = oracle();
    oracle.set_price_stable(&vec![5, 6]);
    assert_eq!(
        oracle.lastprice(100, 7_000),
        Ok(Some(PriceData { price: 5, timestamp: 7_000 }))
    );
    assert_eq!(oracle.prices(100, 3, 7_000), Ok(None));
}

#[test]
fn price_runs_go_backwards_until_a_gap() {
    let mut oracle = oracle();
    oracle.set_price(&vec![1, 10], 300);
    oracle.set_price(&vec![2, 20], 900);
    oracle.set_price(&vec![3, 30], 1_200);
    assert_eq!(
        oracle.prices(200, 5, 0),
        Ok(Some(vec![
            PriceData { price: 30, timestamp: 1_200 },
            PriceData { price: 20, timestamp: 900 },
        ]))
    );
    assert_eq!(
        oracle.prices(200, 1, 0),
        Ok(Some(vec![PriceData { price: 30, timestamp: 1_200 }]))
    );
    assert_eq!(oracle.prices(300, 0, 0), Ok(None));
    assert_eq!(oracle.prices(300, 1, 0), Err(PriceOracleError::AssetMissing));
    for step in 0..30 {
        oracle.set_price(&vec![step as i128, 0], 3_000 + 300 * step);
    }
    let run = oracle.prices(100, 100, 0).unwrap().unwrap();
    assert_eq!(run.len() as u32, MAX_RECORDS);
    assert_eq!(run[19], PriceData { price: 10, timestamp: 6_000 });
}

#[test]
fn price_keys_pack_time_and_position() {
    assert_eq!(price_key(0, 0), 0);
    assert_eq!(price_key(3, 1), (1 << 64) + 3);
    assert_eq!(price_key(255, u64::MAX), ((u64::MAX as u128) << 64) + 255);
}

#[test]
fn the_emitter_pays_whoever_it_was_told_to() {
    let mut emitter =
        MockEmitter { binding: None, last_distro: HashMap::new(), dropped: HashMap::new() };
    emitter.initialize(1, 2, 3, 100).unwrap();
    let again = emitter.initialize(1, 4, 3, 100).unwrap_err();
    assert_eq!((again, again.code()), (EmitterError::AlreadyInitializedError, 3));
    assert_eq!(emitter.get_backstop(), 2);
    assert_eq!(emitter.distribute(105), 5 * 10_000_000);
    assert_eq!(emitter.get_last_distro(2), 105);
    let much = emitter.drop(&vec![(7, MAX_DROP), (8, 1)]).unwrap_err();
    assert_eq!(much.code(), 1101);
    assert_eq!(emitter.drop(&vec![(7, MAX_DROP)]), Ok(()));
    assert_eq!(emitter.drop(&vec![(7, 1)]), Err(EmitterError::BadDrop));
}

#[test]
fn the_pool_allows_withdrawals_of_a_backstop_without_debt() {
    let mut pool = MockPool { backstop: None, positions: HashMap::new() };
    assert!(!pool.backstop_withdrawal_allowed(1));
    pool.set_backstop(1);
    assert!(pool.backstop_withdrawal_allowed(1));
    assert!(!pool.backstop_withdrawal_allowed(2));
    let debt = Positions { liabilities: vec![(0, 1_0000000)], collateral: vec![], supply: vec![] };
    pool.set_positions(1, debt);
    assert!(!pool.backstop_withdrawal_allowed(1));
    assert_eq!(pool.get_positions(1).liabilities, vec![(0, 1_0000000)]);
    assert!(pool.get_positions(2).supply.is_empty());
}

#[test]
fn the_valuation_prices_one_to_one_or_fails_on_demand() {
    let binding = BackstopValuationBinding { blnd: 1, blnd_usdc: 2, blnd_xlm: 3, usdc: 4 };
    let mut valuation = MockBackstopValuation { binding, quote_failure: false };
    assert_eq!(valuation.binding(), binding);
    assert_eq!(
        valuation.quote(2, 77),
        Ok(AssetValuation { underlying_blnd: 77, usdc_value: 77, valid_until: u64::MAX })
    );
    valuation.set_quote_failure(true);
    let error = valuation.quote(2, 77).unwrap_err();
    assert_eq!((error, error.code()), (MockBackstopValuationError::QuoteFailure, 1));
}
