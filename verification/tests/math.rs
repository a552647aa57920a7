//! Arithmetic through 256 bits.

use backstop::backstop::pool::mul_div_floor as valued_floor;
use backstop::errors::BackstopError;
use backstop::math::{mul_div_ceil, mul_div_floor};
use soroban_sdk::testutils::EnvTestConfig;
use soroban_sdk::Env;

fn env() -> Env {
    Env::new_with_config(EnvTestConfig { capture_snapshot_at_drop: false })
}

#[test]
fn floors_and_ceils_exactly() {
    let e = env();
    assert_eq!(mul_div_floor(&e, 7, 3, 2), Some(10));
    assert_eq!(mul_div_ceil(&e, 7, 3, 2), Some(11));
    assert_eq!(mul_div_floor(&e, 8, 3, 2), Some(12));
    assert_eq!(mul_div_ceil(&e, 8, 3, 2), Some(12));
    assert_eq!(mul_div_ceil(&e, 0, 3, 2), Some(0));
}

#[test]
fn wide_products_do_not_overflow() {
    let e = env();
    assert_eq!(mul_div_floor(&e, i128::MAX, i128::MAX, i128::MAX), Some(i128::MAX));
    assert_eq!(mul_div_ceil(&e, i128::MAX, i128::MAX, i128::MAX), Some(i128::MAX));
    assert_eq!(mul_div_floor(&e, i128::MAX, 2, 3), Some(113427455640312821154458202477256070484));
    assert_eq!(mul_div_floor(&e, i128::MAX, 2, 1), None);
    assert_eq!(mul_div_ceil(&e, i128::MAX, 3, 2), None);
}

#[test]
fn valuations_refuse_negative_operands() {
    let e = env();
    assert_eq!(valued_floor(&e, -1, 1, 1), Err(BackstopError::InvalidValuation));
    assert_eq!(valued_floor(&e, 1, -1, 1), Err(BackstopError::InvalidValuation));
    assert_eq!(valued_floor(&e, 1, 1, 0), Err(BackstopError::InvalidValuation));
    assert_eq!(valued_floor(&e, i128::MAX, 2, 1), Err(BackstopError::OverflowError));
    assert_eq!(valued_floor(&e, 10, 10, 3), Ok(33));
}
