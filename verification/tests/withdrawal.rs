//! Queueing, dequeueing and withdrawing shares of one tier.

use backstop::backstop::deposit::{credit_tier_shares, execute_deposit};
use backstop::backstop::fund_management::{execute_donate, execute_draw};
use backstop::backstop::pool::{BackstopAsset, PoolBalance};
use backstop::backstop::user::{dequeue, matured, withdraw, UserBalance, Q4W};
use backstop::backstop::withdrawal::{
    execute_dequeue_withdrawal, execute_force_queue_withdrawal, execute_force_withdrawal,
    execute_queue_withdrawal, execute_withdraw, require_q4w_entry_capacity, QueueLengths,
};
use backstop::constants::{MAX_Q4W_SIZE, Q4W_LOCK_TIME, SCALAR_7};
use backstop::emissions::tier_accounting::{PoolWeights, WeightStreams};
use backstop::errors::BackstopError;
use backstop::storage::{BackstopEmissionData, PoolOngoingEmissions, UserEmissionData};
use soroban_sdk::testutils::EnvTestConfig;
use soroban_sdk::Env;

const LOCK: u64 = 17 * 24 * 60 * 60;
/// A pool with nothing in it, about to change in its BLND:USDC tier.
const WEIGHTS: PoolWeights = PoolWeights {
    asset: BackstopAsset::BlndUsdc,
    state: PoolOngoingEmissions {
        accrued_pool: 0,
        active_blnd_usdc: 0,
        active_blnd_xlm: 0,
        backstop_tier_carry: 0,
        pending_blnd_usdc: 0,
        pending_blnd_xlm: 0,
    },
    blnd_usdc: None,
    blnd_xlm: None,
};

struct Tier {
    e: Env,
    pool: PoolBalance,
    user: UserBalance,
    streams: WeightStreams,
    weights: PoolWeights,
    now: u64,
}

impl Tier {
    fn new() -> Self {
        Tier {
            e: Env::new_with_config(EnvTestConfig { capture_snapshot_at_drop: false }),
            pool: PoolBalance { shares: 0, tokens: 0, q4w: 0 },
            user: UserBalance { shares: 0, q4w: vec![] },
            streams: WeightStreams { emission: None, user: None },
            weights: WEIGHTS,
            now: 10_000,
        }
    }

    fn deposit(&mut self, amount: i128) -> Result<i128, BackstopError> {
        self.deposit_with(10, Ok(()), Ok(true), amount)
    }

    fn deposit_with(
        &mut self,
        from: u64,
        registration: Result<(), BackstopError>,
        change: Result<bool, BackstopError>,
        amount: i128,
    ) -> Result<i128, BackstopError> {
        execute_deposit(
            &self.e,
            &mut self.pool,
            &mut self.user,
            &mut self.streams,
            &mut self.weights,
            from,
            11,
            12,
            registration,
            change,
            amount,
            self.now,
        )
    }

    /// Another user's deposit.
    fn other_deposits(&mut self, amount: i128) {
        let mut other = UserBalance { shares: 0, q4w: vec![] };
        credit_tier_shares(&mut self.pool, &mut other, amount).unwrap();
    }

    fn queue(&mut self, amount: i128) -> Result<Q4W, BackstopError> {
        self.queue_with(Ok(true), amount)
    }

    fn queue_with(
        &mut self,
        change: Result<bool, BackstopError>,
        amount: i128,
    ) -> Result<Q4W, BackstopError> {
        let lengths =
            QueueLengths { blnd_usdc: self.user.q4w.len() as u32, blnd_xlm: 0, usdc: 0 };
        execute_queue_withdrawal(
            &self.e,
            &mut self.pool,
            &mut self.user,
            &mut self.streams,
            &mut self.weights,
            &lengths,
            change,
            amount,
            self.now,
        )
    }

    fn dequeue(&mut self, amount: i128) -> Result<(), BackstopError> {
        execute_dequeue_withdrawal(
            &self.e,
            &mut self.pool,
            &mut self.user,
            &mut self.streams,
            &mut self.weights,
            Ok(true),
            amount,
            self.now,
        )
    }

    fn withdraw(&mut self, amount: i128) -> Result<i128, BackstopError> {
        self.withdraw_with(false, Ok(true), amount)
    }

    fn withdraw_with(
        &mut self,
        has_liabilities: bool,
        change: Result<bool, BackstopError>,
        amount: i128,
    ) -> Result<i128, BackstopError> {
        execute_withdraw(
            &self.e,
            &mut self.pool,
            &mut self.user,
            &mut self.streams,
            &mut self.weights,
            has_liabilities,
            change,
            amount,
            self.now,
        )
    }

    fn donate(&mut self, amount: i128) {
        let (mut carry, mut pending) = (0, 0);
        execute_donate(
            &mut self.pool,
            &mut self.weights,
            10,
            11,
            12,
            Ok(true),
            Ok(()),
            BackstopAsset::BlndUsdc,
            amount,
            &mut carry,
            &mut pending,
        )
        .unwrap();
    }

    fn draw(&mut self, amount: i128) {
        execute_draw(&mut self.pool, &mut self.weights, Ok(true), amount).unwrap();
    }
}

fn pool(shares: i128, tokens: i128, q4w: i128) -> PoolBalance {
    PoolBalance { shares, tokens, q4w }
}

#[test]
fn test_execute_queue_withdrawal() {
    let mut tier = Tier::new();
    tier.deposit(100_0000000).unwrap();
    tier.queue(42_0000000).unwrap();

    assert_eq!(tier.user.shares, 58_0000000);
    assert_eq!(tier.user.q4w, vec![Q4W { amount: 42_0000000, exp: 10000 + LOCK }]);
    assert_eq!(tier.pool, pool(100_0000000, 100_0000000, 42_0000000));
}

#[test]
fn test_execute_queue_withdrawal_negative_amount() {
    let mut tier = Tier::new();
    tier.deposit(100_0000000).unwrap();
    assert_eq!(tier.queue(-42_0000000).unwrap_err().code(), 8);
}

#[test]
fn test_execute_dequeue_withdrawal() {
    let mut tier = Tier::new();
    tier.deposit(75_0000000).unwrap();
    tier.queue(25_0000000).unwrap();
    tier.now = 20000;
    tier.queue(40_0000000).unwrap();

    tier.now = 30000;
    tier.dequeue(30_0000000).unwrap();
    assert_eq!(tier.user.shares, 40_0000000);
    assert_eq!(
        tier.user.q4w,
        vec![
            Q4W { amount: 25_0000000, exp: 10000 + LOCK },
            Q4W { amount: 10_0000000, exp: 20000 + LOCK },
        ]
    );
    assert_eq!(tier.pool, pool(75_0000000, 75_0000000, 35_0000000));
}

#[test]
fn test_execute_dequeue_withdrawal_negative_amount() {
    let mut tier = Tier::new();
    tier.deposit(75_0000000).unwrap();
    tier.queue(25_0000000).unwrap();
    tier.queue(40_0000000).unwrap();
    tier.now = 20000;
    assert_eq!(tier.dequeue(-30_0000000).unwrap_err().code(), 8);
}

#[test]
fn test_execute_withdrawal() {
    let mut tier = Tier::new();
    tier.deposit(100_0000000).unwrap();
    tier.queue(42_0000000).unwrap();
    tier.donate(50_0000000);

    tier.now = 10000 + LOCK + 1;
    let tokens = tier.withdraw(42_0000000).unwrap();
    assert_eq!(tier.user.shares, 100_0000000 - 42_0000000);
    assert_eq!(tier.user.q4w.len(), 0);
    assert_eq!(tier.pool, pool(100_0000000 - 42_0000000, 150_0000000 - tokens, 0));
    assert_eq!(tokens, 63_0000000);
}

#[test]
fn test_execute_withdrawal_negative_amount() {
    let mut tier = Tier::new();
    tier.deposit(100_0000000).unwrap();
    tier.queue(42_0000000).unwrap();
    tier.donate(50_0000000);
    tier.now = 10000 + LOCK + 1;
    assert_eq!(tier.withdraw(-42_0000000).unwrap_err().code(), 8);
}

#[test]
fn test_execute_withdrawal_zero_tokens() {
    let mut tier = Tier::new();
    tier.other_deposits(1_0000001);
    tier.deposit(1_0000000).unwrap();
    tier.queue(1_0000000).unwrap();
    tier.draw(1_9999999);
    tier.now = 10000 + LOCK + 1;
    assert_eq!(tier.withdraw(1_0000000).unwrap_err().code(), 1006);
}

#[test]
fn test_execute_withdrawal_bad_debt_exists() {
    let mut tier = Tier::new();
    tier.deposit(100_0000000).unwrap();
    tier.queue(42_0000000).unwrap();
    tier.donate(50_0000000);
    tier.now = 10000 + LOCK + 1;
    let error = tier.withdraw_with(true, Ok(true), 42_0000000).unwrap_err();
    assert_eq!(error.code(), 1011);
}

#[test]
fn test_execute_withdrawal_burns_expired_shares_in_drained_backstop() {
    let mut tier = Tier::new();
    tier.other_deposits(1_0000001);
    tier.deposit(1_0000000).unwrap();
    tier.queue(1_0000000).unwrap();
    tier.draw(2_0000001);
    tier.now = 10000 + LOCK + 1;
    assert_eq!(tier.withdraw(1_0000000), Ok(0));
    assert_eq!(tier.user.shares, 0);
    assert_eq!(tier.user.q4w.len(), 0);
    assert_eq!(tier.pool, pool(1_0000001, 0, 0));
}

#[test]
fn test_execute_withdrawal_all_shares_over_1_rate() {
    let mut tier = Tier::new();
    let deposit_amount = 111_1111111;
    let donate_amount = 123;
    tier.deposit(deposit_amount).unwrap();
    tier.queue(deposit_amount).unwrap();
    tier.donate(donate_amount);
    tier.now = 10000 + LOCK + 1;
    let tokens = tier.withdraw(deposit_amount).unwrap();
    assert_eq!(tier.user.shares, 0);
    assert_eq!(tier.user.q4w.len(), 0);
    assert_eq!(tier.pool, pool(0, 0, 0));
    assert_eq!(tokens, deposit_amount + donate_amount);
}

#[test]
fn test_execute_withdrawal_all_shares_under_1_rate() {
    let mut tier = Tier::new();
    let deposit_amount = 111_1111111;
    let draw_amount = 123;
    tier.deposit(deposit_amount).unwrap();
    tier.queue(deposit_amount).unwrap();
    tier.draw(draw_amount);
    tier.now = 10000 + LOCK + 1;
    let tokens = tier.withdraw(deposit_amount).unwrap();
    assert_eq!(tier.user.shares, 0);
    assert_eq!(tier.user.q4w.len(), 0);
    assert_eq!(tier.pool, pool(0, 0, 0));
    assert_eq!(tokens, deposit_amount - draw_amount);
}

#[test]
fn the_lock_time_is_seventeen_days() {
    assert_eq!(Q4W_LOCK_TIME, LOCK);
}

#[test]
fn deposits_are_refused_in_order() {
    let mut tier = Tier::new();
    let bad = Err(BackstopError::NotPool);
    let stale = Err(BackstopError::DistributionCheckpointRequired);
    assert_eq!(
        tier.deposit_with(11, bad, stale, -1),
        Err(BackstopError::NegativeAmountError)
    );
    assert_eq!(tier.deposit_with(11, bad, stale, 1), Err(BackstopError::BadRequest));
    assert_eq!(tier.deposit_with(12, bad, stale, 1), Err(BackstopError::BadRequest));
    assert_eq!(tier.deposit_with(10, bad, stale, 1), Err(BackstopError::NotPool));
    assert_eq!(
        tier.deposit_with(10, Ok(()), stale, 1),
        Err(BackstopError::DistributionCheckpointRequired)
    );
    assert_eq!(
        tier.deposit_with(10, Ok(()), Ok(false), 0),
        Err(BackstopError::InvalidShareMintAmount)
    );
    assert_eq!(tier.pool, pool(0, 0, 0));
}

#[test]
fn a_deposit_counts_what_the_user_earned_before() {
    let mut tier = Tier::new();
    tier.deposit(100 * SCALAR_7).unwrap();
    tier.streams.emission = Some(BackstopEmissionData {
        eps: 0_10000000000000,
        expiration: 20_000,
        index: 0,
        index_carry: 0,
        last_time: 9_900,
        schedule_carry: 0,
    });
    tier.streams.user = Some(UserEmissionData { accrued: 0, carry: 0, index: 0 });
    tier.deposit(50 * SCALAR_7).unwrap();
    let data = tier.streams.emission.unwrap();
    assert_eq!(data.last_time, 10_000);
    assert_eq!(data.index, 1_000_0000000000);
    let earned = tier.streams.user.unwrap();
    assert_eq!(earned.accrued, 10 * SCALAR_7);
    assert_eq!(earned.index, data.index);
}

#[test]
fn withdrawals_are_refused_in_order() {
    let mut tier = Tier::new();
    tier.deposit(100).unwrap();
    assert_eq!(tier.queue(101).unwrap_err(), BackstopError::BalanceError);
    tier.queue(60).unwrap();
    tier.queue(10).unwrap();
    assert_eq!(tier.withdraw(60), Err(BackstopError::NotExpired));
    tier.now = 10_000 + LOCK;
    assert_eq!(tier.withdraw(71), Err(BackstopError::BalanceError));
    assert_eq!(
        tier.withdraw_with(false, Err(BackstopError::MigrationNotActive), 70),
        Err(BackstopError::MigrationNotActive)
    );
    assert_eq!(tier.dequeue(71), Err(BackstopError::BalanceError));
    assert_eq!(
        tier.queue_with(Err(BackstopError::MigrationNotActive), 1).unwrap_err(),
        BackstopError::MigrationNotActive
    );
    assert_eq!(tier.withdraw(65), Ok(65));
    assert_eq!(tier.user.q4w, vec![Q4W { amount: 5, exp: 10_000 + LOCK }]);
    assert_eq!(tier.pool, pool(35, 35, 5));
}

#[test]
fn queues_are_bounded_over_all_tiers() {
    let full = QueueLengths { blnd_usdc: MAX_Q4W_SIZE - 2, blnd_xlm: 1, usdc: 1 };
    assert_eq!(require_q4w_entry_capacity(&full), Err(BackstopError::TooManyQ4WEntries));
    let room = QueueLengths { blnd_usdc: MAX_Q4W_SIZE - 2, blnd_xlm: 1, usdc: 0 };
    assert_eq!(require_q4w_entry_capacity(&room), Ok(()));
    let huge = QueueLengths { blnd_usdc: u32::MAX, blnd_xlm: u32::MAX, usdc: 2 };
    assert_eq!(require_q4w_entry_capacity(&huge), Err(BackstopError::TooManyQ4WEntries));
}

#[test]
fn dequeueing_undoes_queueing() {
    let mut tier = Tier::new();
    tier.deposit(100).unwrap();
    tier.queue(30).unwrap();
    let before = tier.pool;
    tier.queue(20).unwrap();
    tier.dequeue(20).unwrap();
    assert_eq!(tier.pool, before);
    assert_eq!(tier.user.shares, 70);
    assert_eq!(tier.user.q4w.len(), 1);
}

#[test]
fn a_deposit_and_its_withdrawal_create_no_tokens() {
    let mut tier = Tier::new();
    tier.other_deposits(3);
    tier.donate(4);
    let shares = tier.deposit(10).unwrap();
    assert_eq!(shares, 4);
    tier.queue(shares).unwrap();
    tier.now = 10_000 + LOCK;
    assert_eq!(tier.withdraw(shares), Ok(9));
    assert_eq!(tier.pool, pool(3, 8, 0));
}

#[test]
fn queues_give_up_their_ends() {
    let queue = || vec![Q4W { amount: 5, exp: 10 }, Q4W { amount: 7, exp: 20 }];
    assert_eq!(dequeue(&queue(), 8), Some(vec![Q4W { amount: 4, exp: 10 }]));
    assert_eq!(dequeue(&queue(), 13), None);
    assert_eq!(withdraw(&queue(), 6, 20), Ok(vec![Q4W { amount: 6, exp: 20 }]));
    assert_eq!(withdraw(&queue(), 6, 19), Err(BackstopError::NotExpired));
    assert_eq!(withdraw(&queue(), 13, 20), Err(BackstopError::BalanceError));
    assert_eq!(matured(&queue(), 9), 0);
    assert_eq!(matured(&queue(), 10), 5);
    assert_eq!(matured(&queue(), 20), 12);
}

#[test]
fn force_withdrawals_take_what_has_matured() {
    let mut tier = Tier::new();
    tier.deposit(100).unwrap();
    tier.queue(30).unwrap();
    tier.now = 20_000;
    let lengths = QueueLengths { blnd_usdc: 1, blnd_xlm: 0, usdc: 0 };
    let entry = execute_force_queue_withdrawal(
        &tier.e,
        &mut tier.pool,
        &mut tier.user,
        &mut tier.streams,
        &mut tier.weights,
        &lengths,
        Ok(false),
        tier.now,
    )
    .unwrap();
    assert_eq!(entry, Q4W { amount: 70, exp: 20_000 + LOCK });
    assert_eq!(tier.user.shares, 0);
    assert_eq!(tier.pool, pool(100, 100, 100));

    tier.now = 10_000 + LOCK;
    let out = execute_force_withdrawal(
        &tier.e,
        &mut tier.pool,
        &mut tier.user,
        &mut tier.streams,
        &mut tier.weights,
        false,
        Ok(false),
        tier.now,
    );
    assert_eq!(out, Ok((30, 30)));
    let out = execute_force_withdrawal(
        &tier.e,
        &mut tier.pool,
        &mut tier.user,
        &mut tier.streams,
        &mut tier.weights,
        true,
        Ok(false),
        20_000 + LOCK,
    );
    assert_eq!(out, Err(BackstopError::BadDebtExists));
    assert_eq!(tier.pool, pool(70, 70, 70));
}

#[test]
fn every_change_keeps_the_record_of_active_tokens_current() {
    let mut tier = Tier::new();
    tier.weights.blnd_xlm = Some(pool(10, 20, 5));
    let record = |active_blnd_usdc: i128| PoolOngoingEmissions {
        active_blnd_usdc,
        active_blnd_xlm: 10,
        ..WEIGHTS.state
    };
    tier.deposit(100).unwrap();
    assert_eq!(tier.weights.state, record(100));
    tier.queue(40).unwrap();
    assert_eq!(tier.weights.state, record(60));
    tier.dequeue(10).unwrap();
    assert_eq!(tier.weights.state, record(70));
    tier.donate(100);
    assert_eq!(tier.weights.state, record(140));
    tier.draw(50);
    assert_eq!(tier.weights.state, record(105));
    tier.now += LOCK;
    tier.withdraw(30).unwrap();
    assert_eq!(tier.weights.state, record(105));
    assert_eq!(tier.weights.blnd_usdc, Some(tier.pool));

    tier.deposit_with(10, Ok(()), Ok(false), 15).unwrap();
    assert_eq!(tier.weights.state, record(105));
    assert_eq!(tier.weights.blnd_usdc, Some(tier.pool));
}

#[test]
fn a_record_that_cannot_be_used_refuses_the_change() {
    let mut tier = Tier::new();
    tier.deposit(100).unwrap();
    tier.weights.state.accrued_pool = -1;
    let before = (tier.pool, tier.weights);
    assert_eq!(tier.queue(10), Err(BackstopError::InvalidEmissionValue));
    assert_eq!((tier.pool, tier.weights), before);
    assert!(tier.user.q4w.is_empty());
    assert_eq!(tier.user.shares, 100);
    tier.queue_with(Ok(false), 10).unwrap();
    assert_eq!(tier.weights.state.accrued_pool, -1);
}

#[test]
fn refusals_come_before_any_conversion() {
    let huge = PoolBalance { shares: i128::MAX, tokens: i128::MAX - 1, q4w: i128::MAX };
    let mut tier = Tier::new();
    tier.pool = huge;
    tier.user.q4w.push(Q4W { amount: i128::MAX / 2, exp: 20_000 });
    let amount = i128::MAX / 2;
    assert_eq!(tier.withdraw_with(true, Ok(true), amount), Err(BackstopError::BadDebtExists));
    assert_eq!(tier.withdraw(amount), Err(BackstopError::NotExpired));
    tier.now = 20_000;
    assert_eq!(tier.withdraw(i128::MAX - 1), Err(BackstopError::BalanceError));
    assert_eq!(tier.withdraw(-1), Err(BackstopError::NegativeAmountError));
    assert_eq!(tier.deposit(i128::MIN), Err(BackstopError::NegativeAmountError));
    assert_eq!(
        tier.deposit_with(11, Ok(()), Ok(true), i128::MAX),
        Err(BackstopError::BadRequest)
    );
    assert_eq!(
        tier.deposit_with(10, Err(BackstopError::NotPool), Ok(true), i128::MAX),
        Err(BackstopError::NotPool)
    );
    assert_eq!(tier.pool, huge);
}
