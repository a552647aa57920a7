//! The emitter.

use backstop::constants::SCALAR_7;
use backstop::emitter::contract::{EmissionToken, EmitterContract};
use backstop::emitter::conversion::{
    begin_swap, execute_swap_blnd_for_blnt, SwapBalances, SwapTerms,
};
use backstop::emitter::emitter::{execute_distribute, execute_drop};
use backstop::emitter::errors::EmitterError;

const EMITTER: u64 = 1;
const BACKSTOP: u64 = 2;
const LEGACY: u64 = 3;
const BLNT: u64 = 4;
const DEADLINE: u64 = 1_000 + 31 * 24 * 60 * 60;

#[test]
fn test_distribute() {
    let mut last_distro_time = 1000;
    let result = execute_distribute(&mut last_distro_time, 12345);
    assert_eq!(result, 11345_0000000);
    assert_eq!(last_distro_time, 12345);
}

#[test]
fn test_drop() {
    let drop_list = vec![(10, 120_000_000 * SCALAR_7), (11, 30_000_000 * SCALAR_7)];
    let mut dropped = false;
    assert_eq!(
        execute_drop(BACKSTOP, BACKSTOP, &mut dropped, &drop_list),
        Ok(150_000_000 * SCALAR_7)
    );
    assert!(dropped);
}

#[test]
fn test_drop_already_dropped() {
    let drop_list = vec![(10, 20_000_000 * SCALAR_7), (11, 30_000_000 * SCALAR_7)];
    let mut dropped = true;
    assert_eq!(
        execute_drop(BACKSTOP, BACKSTOP, &mut dropped, &drop_list),
        Err(EmitterError::BadDrop)
    );
    assert!(dropped);
}

#[test]
fn test_drop_too_large() {
    let drop_list = vec![(10, 120_000_000 * SCALAR_7), (11, 30_000_001 * SCALAR_7)];
    let mut dropped = false;
    assert_eq!(
        execute_drop(BACKSTOP, BACKSTOP, &mut dropped, &drop_list),
        Err(EmitterError::BadDrop)
    );
    assert!(!dropped);
}

#[test]
fn test_migration_drop_retains_fifty_million_cap() {
    let mut dropped = false;
    let drop_list = vec![(10, 50_000_000 * SCALAR_7 + 1)];
    assert_eq!(
        execute_drop(BACKSTOP, 99, &mut dropped, &drop_list),
        Err(EmitterError::BadDrop)
    );
    let drop_list = vec![(10, 50_000_000 * SCALAR_7)];
    assert_eq!(
        execute_drop(BACKSTOP, 99, &mut dropped, &drop_list),
        Ok(50_000_000 * SCALAR_7)
    );
}

#[test]
fn test_drop_rejects_negative_amount() {
    let mut dropped = false;
    assert_eq!(
        execute_drop(BACKSTOP, BACKSTOP, &mut dropped, &vec![(10, -1)]),
        Err(EmitterError::BadDrop)
    );
}

#[test]
fn test_drop_negative_amount_cannot_bypass_cap() {
    let mut dropped = false;
    let drop_list = vec![(10, 150_000_001 * SCALAR_7), (11, -SCALAR_7)];
    assert_eq!(
        execute_drop(BACKSTOP, BACKSTOP, &mut dropped, &drop_list),
        Err(EmitterError::BadDrop)
    );
}

#[test]
fn drops_check_their_sum_for_overflow() {
    let mut dropped = false;
    let drop_list = vec![(10, 1), (11, i128::MAX)];
    assert_eq!(
        execute_drop(BACKSTOP, BACKSTOP, &mut dropped, &drop_list),
        Err(EmitterError::OverflowError)
    );
}

#[test]
fn distributions_add_up() {
    let mut once = 1000;
    let mut twice = 1000;
    let whole = execute_distribute(&mut once, 9_999);
    let parts = execute_distribute(&mut twice, 5_000) + execute_distribute(&mut twice, 9_999);
    assert_eq!(whole, parts);
}

fn terms() -> SwapTerms {
    SwapTerms { is_init: true, deadline: DEADLINE, locked: false, legacy_blnd: LEGACY, blnt: BLNT }
}

fn settled(amount: i128) -> SwapBalances {
    SwapBalances {
        legacy_before: 0,
        legacy_received: amount,
        legacy_burned: 0,
        blnt_before: 7,
        blnt_after: 7 + amount,
    }
}

#[test]
fn swaps_blnd_for_blnt_one_to_one_and_burns_receipt() {
    let amount = 25 * 10_000_000;
    let mut terms = terms();
    let mut total_swapped = 0;
    begin_swap(&mut terms, amount, 1_000).unwrap();
    assert!(terms.locked);
    let balances = settled(amount);
    assert_eq!(
        execute_swap_blnd_for_blnt(&mut terms, &mut total_swapped, amount, &balances),
        Ok(amount)
    );
    assert_eq!(balances.legacy_burned, 0);
    assert_eq!(balances.blnt_after - balances.blnt_before, amount);
    assert_eq!(total_swapped, amount);
    assert!(!terms.locked);
}

#[test]
fn permits_swap_until_but_not_at_the_exclusive_deadline() {
    assert_eq!(begin_swap(&mut terms(), 1, DEADLINE - 1), Ok(()));
    assert_eq!(begin_swap(&mut terms(), 1, DEADLINE), Err(EmitterError::SwapWindowClosed));
}

#[test]
fn rejects_nonpositive_swap_amounts() {
    assert_eq!(begin_swap(&mut terms(), 0, 1_000), Err(EmitterError::InvalidSwapAmount));
    assert_eq!(begin_swap(&mut terms(), -1, 1_000), Err(EmitterError::InvalidSwapAmount));
}

#[test]
fn conversions_are_refused_in_order() {
    let mut fresh = SwapTerms { is_init: false, ..terms() };
    assert_eq!(begin_swap(&mut fresh, 0, DEADLINE), Err(EmitterError::NotInitialized));
    let mut busy = SwapTerms { locked: true, ..terms() };
    assert_eq!(begin_swap(&mut busy, 1, 1_000), Err(EmitterError::ReentrantSwap));
    let mut same = SwapTerms { blnt: LEGACY, ..terms() };
    assert_eq!(begin_swap(&mut same, 1, 1_000), Err(EmitterError::InvalidSwapToken));
}

#[test]
fn conversions_check_every_balance() {
    let good = settled(5);
    for bad in [
        SwapBalances { legacy_received: 4, ..good },
        SwapBalances { legacy_burned: 1, ..good },
        SwapBalances { blnt_after: 11, ..good },
        SwapBalances { legacy_before: i128::MIN, ..good },
        SwapBalances { blnt_before: i128::MIN, ..good },
    ] {
        let mut total = 3;
        assert_eq!(
            execute_swap_blnd_for_blnt(&mut terms(), &mut total, 5, &bad),
            Err(EmitterError::SwapBalanceError)
        );
        assert_eq!(total, 3);
    }
    let mut total = i128::MAX;
    assert_eq!(
        execute_swap_blnd_for_blnt(&mut terms(), &mut total, 5, &good),
        Err(EmitterError::OverflowError)
    );
}

fn contract() -> EmitterContract {
    EmitterContract {
        address: EMITTER,
        is_init: false,
        emission_token: 0,
        backstop: 0,
        initial_backstop: 0,
        backstop_token: 0,
        last_distro_time: 0,
    }
}

fn token() -> EmissionToken {
    EmissionToken { address: BLNT, is_stellar_asset: true, decimals: 7, admin: EMITTER }
}

#[test]
fn initialization_rejects_blnt_not_administered_by_the_emitter() {
    let mut emitter = contract();
    let foreign = EmissionToken { admin: 99, ..token() };
    assert_eq!(
        emitter.initialize(&foreign, BACKSTOP, 5, 0),
        Err(EmitterError::InvalidEmissionToken)
    );
    assert_eq!(emitter, contract());
}

#[test]
fn initialization_rejects_an_invalid_emission_token() {
    let mut emitter = contract();
    for bad in [
        EmissionToken { admin: 99, ..token() },
        EmissionToken { is_stellar_asset: false, ..token() },
        EmissionToken { decimals: 6, ..token() },
    ] {
        assert_eq!(
            emitter.initialize(&bad, BACKSTOP, 5, 0),
            Err(EmitterError::InvalidEmissionToken)
        );
    }
}

#[test]
fn the_emitter_is_initialized_once_and_pays_by_the_second() {
    let mut emitter = contract();
    emitter.initialize(&token(), BACKSTOP, 5, 0).unwrap();
    assert_eq!(emitter.backstop, BACKSTOP);
    assert_eq!(emitter.initial_backstop, BACKSTOP);
    assert_eq!(emitter.emission_token, BLNT);
    assert_eq!(
        emitter.initialize(&token(), 99, 5, 0),
        Err(EmitterError::AlreadyInitializedError)
    );
    assert_eq!(emitter.distribute(100), 100 * SCALAR_7);
    assert_eq!(emitter.last_distro_time, 100);
}

#[test]
fn refused_drops_are_reported_by_number() {
    let mut dropped = true;
    let again = execute_drop(BACKSTOP, BACKSTOP, &mut dropped, &vec![(10, 1)]).unwrap_err();
    assert_eq!(again.code(), Some(1101));
    dropped = false;
    let negative = execute_drop(BACKSTOP, BACKSTOP, &mut dropped, &vec![(10, -1)]).unwrap_err();
    assert_eq!(negative.code(), Some(1101));
    assert_eq!(EmitterError::AlreadyInitializedError.code(), Some(3));
    assert_eq!(EmitterError::OverflowError.code(), None);
}
