//! Draws and donations.

use backstop::backstop::deposit::credit_tier_shares;
use backstop::backstop::fund_management::{execute_donate, execute_draw, DonationResult};
use backstop::backstop::pool::{
    require_is_from_pool_factory, AssetDecimals, BackstopAsset, PoolBalance,
};
use backstop::backstop::user::UserBalance;
use backstop::emissions::tier_accounting::PoolWeights;
use backstop::errors::BackstopError;
use backstop::storage::PoolOngoingEmissions;

const SAMWISE: u64 = 1;
const POOL: u64 = 2;
const BACKSTOP: u64 = 3;
/// A pool with nothing in it, about to change in its BLND:USDC tier.
const WEIGHTS: PoolWeights = PoolWeights {
    asset: BackstopAsset::BlndUsdc,
    state: PoolOngoingEmissions {
        accrued_pool: 0,
        active_blnd_usdc: 0,
        active_blnd_xlm: 0,
        backstop_tier_carry: 0,
        pending_blnd_usdc: 0,
        pending_blnd_xlm: 0,
    },
    blnd_usdc: None,
    blnd_xlm: None,
};

struct Funds {
    pool: PoolBalance,
    weights: PoolWeights,
    carry: i128,
    pending: i128,
}

impl Funds {
    fn with_deposit(amount: i128) -> Self {
        let mut pool = PoolBalance { shares: 0, tokens: 0, q4w: 0 };
        let mut user = UserBalance { shares: 0, q4w: vec![] };
        if amount > 0 {
            credit_tier_shares(&mut pool, &mut user, amount).unwrap();
        }
        Funds { pool, weights: WEIGHTS, carry: 0, pending: 0 }
    }

    fn donate(
        &mut self,
        from: u64,
        asset: BackstopAsset,
        amount: i128,
    ) -> Result<DonationResult, BackstopError> {
        self.donate_with(from, Ok(true), Ok(()), asset, amount)
    }

    fn donate_with(
        &mut self,
        from: u64,
        change: Result<bool, BackstopError>,
        registration: Result<(), BackstopError>,
        asset: BackstopAsset,
        amount: i128,
    ) -> Result<DonationResult, BackstopError> {
        self.weights.asset = asset;
        execute_donate(
            &mut self.pool,
            &mut self.weights,
            from,
            POOL,
            BACKSTOP,
            change,
            registration,
            asset,
            amount,
            &mut self.carry,
            &mut self.pending,
        )
    }
}

#[test]
fn test_execute_donate() {
    let mut funds = Funds::with_deposit(25_0000000);
    let donation = funds.donate(SAMWISE, BackstopAsset::BlndXlm, 30_0000000).unwrap();
    assert_eq!(funds.pool.shares, 25_0000000);
    assert_eq!(funds.pool.tokens, 55_0000000);
    assert_eq!(funds.pending, 0);
    assert_eq!(
        donation,
        DonationResult { credited: 30_0000000, buyback: 0, pending_buyback: 0 }
    );
}

#[test]
fn test_execute_usdc_donate_retains_one_percent_buyback_with_carry() {
    let mut funds = Funds::with_deposit(1_000);
    let first = funds.donate(SAMWISE, BackstopAsset::Usdc, 150).unwrap();
    assert_eq!(first.credited, 149);
    assert_eq!(first.buyback, 1);
    assert_eq!(first.pending_buyback, 1);
    assert_eq!(funds.carry, 50);

    let second = funds.donate(SAMWISE, BackstopAsset::Usdc, 50).unwrap();
    assert_eq!(second.credited, 49);
    assert_eq!(second.buyback, 1);
    assert_eq!(second.pending_buyback, 2);
    assert_eq!(funds.carry, 0);
    assert_eq!(funds.pending, 2);

    assert_eq!(funds.pool.shares, 1_000);
    assert_eq!(funds.pool.tokens, 1_198);
    assert_eq!(funds.pool.tokens + funds.pending, 1_200);
}

#[test]
fn test_execute_donate_negative_amount() {
    let mut funds = Funds::with_deposit(25_0000000);
    let error = funds.donate(SAMWISE, BackstopAsset::BlndUsdc, -30_0000000).unwrap_err();
    assert_eq!(error.code(), 8);
}

#[test]
fn test_execute_donate_from_is_to() {
    let mut funds = Funds::with_deposit(25_0000000);
    let error = funds.donate(POOL, BackstopAsset::BlndUsdc, 10_0000000).unwrap_err();
    assert_eq!(error.code(), 1000);
}

#[test]
fn test_execute_donate_from_is_self() {
    let mut funds = Funds::with_deposit(25_0000000);
    let error = funds.donate(BACKSTOP, BackstopAsset::BlndUsdc, 10_0000000).unwrap_err();
    assert_eq!(error.code(), 1000);
}

#[test]
fn test_execute_donate_not_pool() {
    let mut funds = Funds::with_deposit(0);
    let decimals = AssetDecimals { blnd: 7, usdc: 7, xlm: 7, blnd_usdc: 7, blnd_xlm: 7 };
    let registration =
        require_is_from_pool_factory(funds.pool.shares, None, false, vec![], &decimals);
    let error = funds
        .donate_with(SAMWISE, Ok(true), registration, BackstopAsset::BlndUsdc, 30_0000000)
        .unwrap_err();
    assert_eq!(error.code(), 1004);
}

#[test]
fn test_execute_draw() {
    let mut funds = Funds::with_deposit(50_0000000);
    execute_draw(&mut funds.pool, &mut funds.weights, Ok(true), 30_0000000).unwrap();
    assert_eq!(funds.pool.shares, 50_0000000);
    assert_eq!(funds.pool.tokens, 20_0000000);
}

#[test]
fn test_execute_draw_only_can_take_from_pool() {
    let mut funds = Funds::with_deposit(50_0000000);
    let error = execute_draw(&mut funds.pool, &mut funds.weights, Ok(true), 51_0000000).unwrap_err();
    assert_eq!(error.code(), 1003);
}

#[test]
fn test_execute_draw_negative_amount() {
    let mut funds = Funds::with_deposit(50_0000000);
    let error = execute_draw(&mut funds.pool, &mut funds.weights, Ok(true), -30_0000000).unwrap_err();
    assert_eq!(error.code(), 8);
}

#[test]
fn a_draw_of_nothing_needs_no_checkpoint() {
    let mut funds = Funds::with_deposit(50);
    let stale = Err(BackstopError::DistributionCheckpointRequired);
    assert_eq!(execute_draw(&mut funds.pool, &mut funds.weights, stale, 0), Ok(()));
    assert_eq!(
        execute_draw(&mut funds.pool, &mut funds.weights, stale, 1),
        Err(BackstopError::DistributionCheckpointRequired)
    );
    assert_eq!(funds.pool.tokens, 50);
}

#[test]
fn donations_are_refused_in_order() {
    let mut funds = Funds::with_deposit(50);
    let stale = Err(BackstopError::DistributionCheckpointRequired);
    let bad = Err(BackstopError::NotPool);
    assert_eq!(
        funds.donate_with(SAMWISE, stale, bad, BackstopAsset::Usdc, 1),
        Err(BackstopError::DistributionCheckpointRequired)
    );
    assert_eq!(
        funds.donate_with(SAMWISE, Ok(true), bad, BackstopAsset::Usdc, 1),
        Err(BackstopError::NotPool)
    );
    funds.pending = i128::MAX;
    assert_eq!(
        funds.donate(SAMWISE, BackstopAsset::Xlm, 100),
        Err(BackstopError::OverflowError)
    );
    assert_eq!(funds.pool.tokens, 50);
    assert_eq!(funds.carry, 0);
}

#[test]
fn the_haircut_does_not_depend_on_the_split() {
    let mut whole = Funds::with_deposit(1);
    whole.donate(SAMWISE, BackstopAsset::Xlm, 1_234).unwrap();
    let mut parts = Funds::with_deposit(1);
    for amount in [1, 99, 34, 500, 600] {
        parts.donate(SAMWISE, BackstopAsset::Xlm, amount).unwrap();
    }
    assert_eq!(whole.pending, 12);
    assert_eq!(parts.pending, whole.pending);
    assert_eq!(parts.carry, whole.carry);
    assert_eq!(parts.pool, whole.pool);
}
