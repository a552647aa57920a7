//! Buybacks.

use backstop::backstop::buyback::{
    approval_ledger, buyback_comet, check_swap, execute_buy_and_burn, finish_buyback, no_work,
    BuybackOrder, BuybackResult, BuybackStep, SwapReport,
};
use backstop::backstop::deposit::credit_tier_shares;
use backstop::backstop::fund_management::execute_donate;
use backstop::backstop::pool::{BackstopAsset, BackstopAssets, PoolBalance};
use backstop::backstop::user::UserBalance;
use backstop::constants::{BUYBACK_MAX_RESERVE_DENOMINATOR, SCALAR_7};
use backstop::emissions::tier_accounting::PoolWeights;
use backstop::errors::BackstopError;
use backstop::storage::PoolOngoingEmissions;

const ASSETS: BackstopAssets = BackstopAssets { blnd: 1, usdc: 2, xlm: 3, blnd_usdc: 4, blnd_xlm: 5 };

/// A Comet pool of BLND and a pair token, with a fixed outcome for its next swap.
struct Comet {
    pair: i128,
    blnd: i128,
    spot: i128,
    out: i128,
}

/// Deposit 100, donate 100, and buy back through `comet`.
fn haircut_is_swapped(asset: BackstopAsset) {
    let mut pool = PoolBalance { shares: 0, tokens: 0, q4w: 0 };
    let mut user = UserBalance { shares: 0, q4w: vec![] };
    credit_tier_shares(&mut pool, &mut user, 100 * SCALAR_7).unwrap();
    let (mut carry, mut pending) = (0, 0);
    let mut weights = PoolWeights {
        asset,
        state: PoolOngoingEmissions {
            accrued_pool: 0,
            active_blnd_usdc: 0,
            active_blnd_xlm: 0,
            backstop_tier_carry: 0,
            pending_blnd_usdc: 0,
            pending_blnd_xlm: 0,
        },
        blnd_usdc: None,
        blnd_xlm: None,
    };
    let donation = execute_donate(
        &mut pool,
        &mut weights,
        10,
        11,
        12,
        Ok(false),
        Ok(()),
        asset,
        100 * SCALAR_7,
        &mut carry,
        &mut pending,
    )
    .unwrap();
    assert_eq!(donation.credited, 99 * SCALAR_7);
    assert_eq!(donation.buyback, SCALAR_7);
    assert_eq!(pending, SCALAR_7);

    let mut comet =
        Comet { pair: 25 * SCALAR_7, blnd: 1_000 * SCALAR_7, spot: 1_000_000, out: 12_400_000 };
    let (pair_before, blnd_before) = (comet.pair, comet.blnd);
    let mut held = (pending, 0);
    assert_eq!(execute_buy_and_burn(asset, pending, None, None), Ok(BuybackStep::ReadReserve));
    assert_eq!(
        execute_buy_and_burn(asset, pending, Some(comet.pair), None),
        Ok(BuybackStep::ReadPrice)
    );
    let order = match execute_buy_and_burn(asset, pending, Some(comet.pair), Some(comet.spot)) {
        Ok(BuybackStep::Swap(order)) => order,
        other => panic!("{:?}", other),
    };
    assert_eq!(order.max_price, 1_010_000);
    assert_eq!(order.min_blnd_out, 12_376_237);

    let before = held;
    comet.pair += order.pair_in;
    comet.blnd -= comet.out;
    held = (held.0 - order.pair_in, held.1 + comet.out);
    let report = SwapReport {
        pair_before: before.0,
        pair_after: held.0,
        blnd_before: before.1,
        blnd_after: held.1,
        reported_blnd_out: comet.out,
        reported_spot_price: 1_006_000,
    };
    let burned = check_swap(&order, &report).unwrap();
    held.1 -= burned;
    let result = finish_buyback(&order, burned, before.1, held.1).unwrap();

    let expected_in = core::cmp::min(SCALAR_7, pair_before / BUYBACK_MAX_RESERVE_DENOMINATOR);
    assert!(result.blnd_burned > 0);
    assert_eq!(comet.pair - pair_before, expected_in);
    assert_eq!(blnd_before - comet.blnd, result.blnd_burned);
    assert_eq!(held.1, 0);
    assert_eq!(result.pair_in, expected_in);
    assert_eq!(result.pending, SCALAR_7 - expected_in);
    assert_eq!(pool.tokens, 199 * SCALAR_7);
}

#[test]
fn buy_and_burn_swaps_a_bounded_batch_and_burns_exact_output() {
    assert_eq!(buyback_comet(&ASSETS, BackstopAsset::Usdc), Ok(ASSETS.blnd_usdc));
    haircut_is_swapped(BackstopAsset::Usdc);
}

#[test]
fn buy_and_burn_without_pending_usdc_is_a_noop() {
    let step = execute_buy_and_burn(BackstopAsset::Usdc, 0, None, None);
    assert_eq!(
        step,
        Ok(BuybackStep::Done(BuybackResult { blnd_burned: 0, pair_in: 0, pending: 0 }))
    );
}

#[test]
fn xlm_haircut_swaps_through_the_blnd_xlm_comet() {
    assert_eq!(buyback_comet(&ASSETS, BackstopAsset::Xlm), Ok(ASSETS.blnd_xlm));
    haircut_is_swapped(BackstopAsset::Xlm);
}

#[test]
fn buybacks_refuse_what_they_cannot_use() {
    let usdc = BackstopAsset::Usdc;
    assert_eq!(
        execute_buy_and_burn(BackstopAsset::BlndUsdc, 1, None, None),
        Err(BackstopError::BadRequest)
    );
    assert_eq!(
        buyback_comet(&ASSETS, BackstopAsset::BlndXlm),
        Err(BackstopError::BadRequest)
    );
    assert_eq!(
        execute_buy_and_burn(usdc, 1, Some(0), None),
        Err(BackstopError::InvalidValuation)
    );
    assert_eq!(
        execute_buy_and_burn(usdc, 1, Some(199), None),
        Ok(BuybackStep::Done(no_work(1)))
    );
    assert_eq!(
        execute_buy_and_burn(usdc, 1, Some(200), Some(0)),
        Err(BackstopError::InvalidValuation)
    );
    assert_eq!(
        execute_buy_and_burn(usdc, 1, Some(200), Some(i128::MAX)),
        Err(BackstopError::OverflowError)
    );
    assert_eq!(
        execute_buy_and_burn(usdc, 1, Some(200), Some(10 * SCALAR_7)),
        Ok(BuybackStep::Done(no_work(1)))
    );
}

#[test]
fn swaps_must_keep_to_their_order() {
    let order = BuybackOrder { pending: 20, pair_in: 10, min_blnd_out: 5, max_price: 100 };
    let report = SwapReport {
        pair_before: 30,
        pair_after: 20,
        blnd_before: 1,
        blnd_after: 7,
        reported_blnd_out: 6,
        reported_spot_price: 100,
    };
    assert_eq!(check_swap(&order, &report), Ok(6));
    for bad in [
        SwapReport { pair_after: 21, ..report },
        SwapReport { blnd_after: 5, reported_blnd_out: 4, ..report },
        SwapReport { reported_blnd_out: 5, ..report },
        SwapReport { reported_spot_price: 0, ..report },
        SwapReport { reported_spot_price: 101, ..report },
        SwapReport { blnd_before: i128::MIN, ..report },
        SwapReport { pair_before: i128::MIN, ..report },
    ] {
        assert_eq!(check_swap(&order, &bad), Err(BackstopError::BalanceError));
    }
    assert_eq!(
        finish_buyback(&order, 6, 1, 1),
        Ok(BuybackResult { blnd_burned: 6, pair_in: 10, pending: 10 })
    );
    assert_eq!(finish_buyback(&order, 6, 1, 2), Err(BackstopError::BalanceError));
}

#[test]
fn approvals_end_with_their_period() {
    assert_eq!(approval_ledger(0), Ok(100_000));
    assert_eq!(approval_ledger(99_999), Ok(100_000));
    assert_eq!(approval_ledger(100_000), Ok(200_000));
    assert_eq!(approval_ledger(u32::MAX), Err(BackstopError::OverflowError));
}
