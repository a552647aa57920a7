//! Clawbacks.

use backstop::backstop::clawback::{
    check_clawback, execute_clawback, remove_user_shares, shares_for_tokens,
};
use backstop::backstop::deposit::credit_tier_shares;
use backstop::backstop::pool::{BackstopAsset, PoolBalance};
use backstop::backstop::user::{UserBalance, Q4W};
use backstop::backstop::withdrawal::{execute_queue_withdrawal, QueueLengths};
use backstop::emissions::tier_accounting::{PoolWeights, WeightStreams};
use backstop::errors::BackstopError;
use backstop::migration::require_weight_mutation_allowed;
use backstop::storage::{BackstopEmissionData, PoolOngoingEmissions, UserEmissionData};
use soroban_sdk::testutils::EnvTestConfig;
use soroban_sdk::Env;

const USER: u64 = 1;
const POOL: u64 = 2;
const BACKSTOP: u64 = 3;
/// A pool with nothing in it, about to change in its BLND:USDC tier.
const WEIGHTS: PoolWeights = PoolWeights {
    asset: BackstopAsset::BlndUsdc,
    state: PoolOngoingEmissions {
        accrued_pool: 0,
        active_blnd_usdc: 0,
        active_blnd_xlm: 0,
        backstop_tier_carry: 0,
        pending_blnd_usdc: 0,
        pending_blnd_xlm: 0,
    },
    blnd_usdc: None,
    blnd_xlm: None,
};

struct Fixture {
    e: Env,
    pool: PoolBalance,
    user: UserBalance,
    streams: WeightStreams,
    weights: PoolWeights,
    held: i128,
}

impl Fixture {
    fn new(deposit: i128) -> Self {
        let mut pool = PoolBalance { shares: 0, tokens: 0, q4w: 0 };
        let mut user = UserBalance { shares: 0, q4w: vec![] };
        credit_tier_shares(&mut pool, &mut user, deposit).unwrap();
        Fixture {
            e: Env::new_with_config(EnvTestConfig { capture_snapshot_at_drop: false }),
            pool,
            user,
            streams: WeightStreams { emission: None, user: None },
            weights: WEIGHTS,
            held: deposit,
        }
    }

    fn queue(
        &mut self,
        change: Result<bool, BackstopError>,
        amount: i128,
    ) -> Result<Q4W, BackstopError> {
        let lengths = QueueLengths { blnd_usdc: 0, blnd_xlm: 0, usdc: 0 };
        execute_queue_withdrawal(
            &self.e,
            &mut self.pool,
            &mut self.user,
            &mut self.streams,
            &mut self.weights,
            &lengths,
            change,
            amount,
            1_000,
        )
    }

    /// Plan a clawback, let the token contract take `taken`, and check it. Nothing
    /// stays changed where a step fails.
    fn clawback(&mut self, amount: i128, taken: i128) -> Result<(i128, i128), BackstopError> {
        let saved = (self.pool, self.user.shares, self.user.q4w.clone());
        let counted = (self.streams, self.weights);
        let burned = execute_clawback(
            &self.e,
            &mut self.pool,
            &mut self.user,
            &mut self.streams,
            &mut self.weights,
            USER,
            POOL,
            BACKSTOP,
            true,
            amount,
            self.held,
            1_000,
        )?;
        match check_clawback(self.held, self.held - taken, amount) {
            Ok(()) => {
                self.held -= taken;
                Ok(burned)
            }
            Err(error) => {
                self.pool = saved.0;
                self.user = UserBalance { shares: saved.1, q4w: saved.2 };
                (self.streams, self.weights) = counted;
                Err(error)
            }
        }
    }
}

#[test]
fn clawback_consumes_active_then_newest_queued_shares() {
    let mut fixture = Fixture::new(100_0000000);
    fixture.queue(Ok(false), 20_0000000).unwrap();
    fixture.queue(Ok(false), 30_0000000).unwrap();

    assert_eq!(fixture.clawback(75_0000000, 75_0000000), Ok((50_0000000, 25_0000000)));

    assert_eq!(fixture.user.shares, 0);
    assert_eq!(fixture.user.q4w.len(), 2);
    assert_eq!(fixture.user.q4w[0].amount, 20_0000000);
    assert_eq!(fixture.user.q4w[1].amount, 5_0000000);
    assert_eq!(
        fixture.pool,
        PoolBalance { tokens: 25_0000000, shares: 25_0000000, q4w: 25_0000000 }
    );
    assert_eq!(fixture.held, 25_0000000);
}

#[test]
fn clawback_requires_clawbackable_backstop_balance() {
    let mut fixture = Fixture::new(100_0000000);
    fixture.queue(Ok(false), 40_0000000).unwrap();

    assert!(fixture.clawback(70_0000000, 0).is_err());

    assert_eq!(fixture.user.shares, 60_0000000);
    assert_eq!(fixture.user.q4w[0].amount, 40_0000000);
    assert_eq!(
        fixture.pool,
        PoolBalance { tokens: 100_0000000, shares: 100_0000000, q4w: 40_0000000 }
    );
}

#[test]
fn clawback_requires_sufficient_user_shares() {
    let mut fixture = Fixture::new(100_0000000);
    let mut other = UserBalance { shares: 0, q4w: vec![] };
    credit_tier_shares(&mut fixture.pool, &mut other, 100_0000000).unwrap();
    fixture.held = 200_0000000;

    assert_eq!(
        fixture.clawback(101_0000000, 101_0000000),
        Err(BackstopError::BalanceError)
    );

    assert_eq!(fixture.user.shares, 100_0000000);
    assert_eq!(fixture.pool.tokens, 200_0000000);
}

#[test]
fn clawback_rounds_share_burn_up_and_burns_exact_assets() {
    let mut fixture = Fixture::new(100_0000000);
    fixture.pool.tokens += 50_0000000;
    fixture.held += 50_0000000;

    fixture.clawback(10_0000000, 10_0000000).unwrap();

    assert_eq!(fixture.user.shares, 93_3333333);
    assert_eq!(fixture.pool.tokens, 140_0000000);
    assert_eq!(fixture.pool.shares, 93_3333333);
    assert_eq!(fixture.held, 140_0000000);
}

#[test]
fn clawback_requires_sufficient_physical_balance() {
    let mut fixture = Fixture::new(100_0000000);
    fixture.held = 50_0000000;

    assert_eq!(
        fixture.clawback(60_0000000, 60_0000000),
        Err(BackstopError::BalanceError)
    );

    assert_eq!(fixture.user.shares, 100_0000000);
    assert_eq!(fixture.pool.tokens, 100_0000000);
    assert_eq!(fixture.held, 50_0000000);
}

#[test]
fn clawback_remains_available_during_migration_transition() {
    let mut fixture = Fixture::new(100_0000000);
    let change = require_weight_mutation_allowed(false, true).map(|_| true);
    assert!(fixture.queue(change, 10_0000000).is_err());
    fixture.clawback(10_0000000, 10_0000000).unwrap();

    assert_eq!(fixture.user.shares, 90_0000000);
    assert_eq!(fixture.pool.tokens, 90_0000000);
}

#[test]
fn clawbacks_count_emissions_while_weights_stand_still() {
    let mut fixture = Fixture::new(100_0000000);
    fixture.streams.emission = Some(BackstopEmissionData {
        eps: 0_10000000000000,
        expiration: 20_000,
        index: 0,
        index_carry: 0,
        last_time: 900,
        schedule_carry: 0,
    });
    fixture.streams.user = Some(UserEmissionData { accrued: 0, carry: 0, index: 0 });
    let change = require_weight_mutation_allowed(false, true).map(|_| true);
    assert!(fixture.queue(change, 10_0000000).is_err());
    assert_eq!(fixture.weights, WEIGHTS);

    assert_eq!(fixture.clawback(10_0000000, 10_0000000), Ok((10_0000000, 0)));
    let data = fixture.streams.emission.unwrap();
    assert_eq!((data.last_time, data.index), (1_000, 1_000_0000000000));
    let earned = fixture.streams.user.unwrap();
    assert_eq!((earned.accrued, earned.index), (10_0000000, data.index));
    assert_eq!(fixture.weights.state.active_blnd_usdc, 90_0000000);
    assert_eq!(fixture.weights.blnd_usdc, Some(fixture.pool));
}

#[test]
fn clawbacks_refuse_requests_that_cannot_be_meant() {
    let mut fixture = Fixture::new(100);
    assert_eq!(fixture.clawback(0, 0), Err(BackstopError::BadRequest));
    assert_eq!(fixture.clawback(101, 101), Err(BackstopError::BalanceError));
    let e = Env::new_with_config(EnvTestConfig { capture_snapshot_at_drop: false });
    for from in [POOL, BACKSTOP] {
        let refused = execute_clawback(
            &e,
            &mut fixture.pool,
            &mut fixture.user,
            &mut fixture.streams,
            &mut fixture.weights,
            from,
            POOL,
            BACKSTOP,
            false,
            1,
            100,
            1_000,
        );
        assert_eq!(refused, Err(BackstopError::BadRequest));
    }
}

#[test]
fn all_shares_go_for_all_tokens() {
    let pool = PoolBalance { shares: 7, tokens: 10, q4w: 0 };
    assert_eq!(shares_for_tokens(&pool, 10), Ok(7));
    assert_eq!(shares_for_tokens(&pool, 1), Ok(1));
    assert_eq!(shares_for_tokens(&pool, 9), Ok(7));
    assert_eq!(shares_for_tokens(&pool, 11), Err(BackstopError::BalanceError));
    let empty = PoolBalance { shares: 0, tokens: 10, q4w: 0 };
    assert_eq!(shares_for_tokens(&empty, 1), Err(BackstopError::BalanceError));
}

#[test]
fn burns_check_their_totals() {
    let queue = vec![Q4W { amount: i128::MAX, exp: 1 }, Q4W { amount: 1, exp: 2 }];
    let mut user = UserBalance { shares: 0, q4w: queue };
    assert_eq!(remove_user_shares(&mut user, 1), Err(BackstopError::OverflowError));
    let mut user = UserBalance { shares: 5, q4w: vec![Q4W { amount: 5, exp: 1 }] };
    assert_eq!(remove_user_shares(&mut user, 11), Err(BackstopError::BalanceError));
    assert_eq!(remove_user_shares(&mut user, 0), Err(BackstopError::BalanceError));
    assert_eq!(remove_user_shares(&mut user, 6), Ok((5, 1)));
    assert_eq!(user.q4w, vec![Q4W { amount: 4, exp: 1 }]);
}

#[test]
fn the_token_contract_must_take_the_exact_amount() {
    assert_eq!(check_clawback(10, 4, 6), Ok(()));
    assert_eq!(check_clawback(10, 5, 6), Err(BackstopError::BalanceError));
    assert_eq!(check_clawback(i128::MIN, 5, 6), Err(BackstopError::OverflowError));
}

#[test]
fn a_user_without_the_shares_loses_none() {
    let mut fixture = Fixture::new(100);
    fixture.user.shares = 40;
    fixture.user.q4w.push(Q4W { amount: 9, exp: 1 });
    fixture.pool.q4w = 9;
    assert_eq!(fixture.clawback(50, 50), Err(BackstopError::BalanceError));
    assert_eq!(fixture.weights, WEIGHTS);
    assert_eq!(fixture.clawback(49, 49), Ok((40, 9)));
    assert_eq!(fixture.weights.state.active_blnd_usdc, 51);
}
