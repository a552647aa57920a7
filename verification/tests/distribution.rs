//! Distribution of ongoing emissions, tier streams, gulps and claims.

use std::collections::HashMap;

use backstop::backstop::deposit::execute_deposit;
use backstop::backstop::pool::{BackstopAsset, PoolBalance};
use backstop::backstop::tier::BackstopTier;
use backstop::backstop::user::UserBalance;
use backstop::backstop::withdrawal::{execute_queue_withdrawal, QueueLengths};
use backstop::constants::{MAX_RZ_SIZE, SCALAR_7};
use backstop::emissions::claim::{
    execute_claim, preview_claim, settle_claim, ClaimPosition, DepositReport,
};
use backstop::emissions::distributor::{
    set_backstop_emission_eps as stream_eps, update_emissions, STREAM_SECONDS,
};
use backstop::emissions::manager::{
    distribute as distribute_to_zone, gulp_emissions, set_backstop_emission_eps, Approval,
    DistributeStep, EmissionReport, GulpResult, OngoingReading, PoolStreams,
};
use backstop::emissions::ongoing::{
    claim_user_ongoing_blnd, distribute as distribute_with_account, finish_pool_weight_change,
    gulp_pool_ongoing_emissions, prepare_pool_weight_change, preview_user_ongoing_blnd,
    OngoingDistribution, OngoingStep,
};
use backstop::emissions::tier_accounting::{
    collect_weights, refresh_pool_ongoing_assets, LpCompositions, PoolWeights, WeightStreams,
    ZoneMember,
};
use backstop::errors::BackstopError;
use backstop::migration::{EmitterView, MigrationRecord};
use backstop::mocks::emitter::MockEmitter;
use backstop::storage::{
    BackstopEmissionData, OngoingEmissionState, PoolOngoingEmissions, UserEmissionData, ZoneClock,
};
use soroban_sdk::testutils::EnvTestConfig;
use soroban_sdk::Env;

const BACKSTOP: u64 = 1;
const BLND: u64 = 2;
const BLND_USDC: u64 = 3;
const BLND_XLM: u64 = 4;
const USDC_TIER: usize = 0;
const XLM_TIER: usize = 1;
const EMPTY: PoolOngoingEmissions = PoolOngoingEmissions {
    accrued_pool: 0,
    active_blnd_usdc: 0,
    active_blnd_xlm: 0,
    backstop_tier_carry: 0,
    pending_blnd_usdc: 0,
    pending_blnd_xlm: 0,
};

/// A user's shares in one tier of one pool with the earnings on record.
#[derive(Clone, Copy)]
struct Position {
    user: u64,
    pool: usize,
    tier: usize,
    shares: i128,
    record: Option<UserEmissionData>,
}

struct Pool {
    state: PoolOngoingEmissions,
    balances: [PoolBalance; 2],
    streams: [Option<BackstopEmissionData>; 2],
    last_gulp: Option<u64>,
    allowance: i128,
}

/// A backstop whose migration is active since 1,000. `accounts` selects the
/// distribution that returns its full account.
struct Fixture {
    e: Env,
    accounts: bool,
    now: u64,
    emitter: MockEmitter,
    record: MigrationRecord,
    state: OngoingEmissionState,
    clock: ZoneClock,
    pools: Vec<Pool>,
    zone: Vec<usize>,
    positions: Vec<Position>,
    blnd: i128,
    lp: [i128; 2],
    binding_verified: bool,
    pays_other_token: bool,
}

fn tier_of(tier: usize) -> BackstopTier {
    if tier == USDC_TIER {
        BackstopTier::BlndUsdc
    } else {
        BackstopTier::BlndXlm
    }
}

fn compositions() -> LpCompositions {
    LpCompositions {
        blnd_usdc_supply: 100 * SCALAR_7,
        blnd_usdc_reserve: 1_000 * SCALAR_7,
        blnd_xlm_supply: 100 * SCALAR_7,
        blnd_xlm_reserve: 1_000 * SCALAR_7,
    }
}

impl Fixture {
    fn create(accounts: bool) -> Self {
        let mut emitter =
            MockEmitter { binding: None, last_distro: HashMap::new(), dropped: HashMap::new() };
        emitter.initialize(BLND, BACKSTOP, BLND_USDC, 1_000).unwrap();
        Fixture {
            e: Env::new_with_config(EnvTestConfig { capture_snapshot_at_drop: false }),
            accounts,
            now: 1_000,
            emitter,
            record: MigrationRecord {
                migration_epoch_start: Some(1_000),
                verified_queue_unlock: None,
                activated_at: Some(1_000),
                backfill_end: Some(1_000),
                scheduled_backfill: 0,
            },
            state: OngoingEmissionState::empty_at(1_000),
            clock: ZoneClock { checkpoint: None, started: false },
            pools: vec![],
            zone: vec![],
            positions: vec![],
            blnd: 0,
            lp: [0, 0],
            binding_verified: false,
            pays_other_token: false,
        }
    }

    fn pool(&mut self, blnd_usdc: i128, blnd_xlm: i128) -> usize {
        let balance = |tokens| PoolBalance { q4w: 0, shares: tokens, tokens };
        self.pools.push(Pool {
            state: EMPTY,
            balances: [balance(blnd_usdc), balance(blnd_xlm)],
            streams: [None, None],
            last_gulp: None,
            allowance: 0,
        });
        self.pools.len() - 1
    }

    fn set_reward_zone(&mut self, pools: &[usize]) {
        self.zone = pools.to_vec();
        for &index in pools {
            self.refresh(index);
        }
    }

    fn refresh(&mut self, index: usize) {
        let pool = &mut self.pools[index];
        let (usdc, xlm) = (Some(pool.balances[0]), Some(pool.balances[1]));
        refresh_pool_ongoing_assets(&mut pool.state, &usdc, &xlm).unwrap();
    }

    fn weights(&self, index: usize, tier: usize) -> PoolWeights {
        let pool = &self.pools[index];
        PoolWeights {
            asset: [BackstopAsset::BlndUsdc, BackstopAsset::BlndXlm][tier],
            state: pool.state,
            blnd_usdc: Some(pool.balances[0]),
            blnd_xlm: Some(pool.balances[1]),
        }
    }

    fn members(&self) -> Vec<ZoneMember> {
        self.zone
            .iter()
            .map(|&index| ZoneMember { pool: index as u64, state: self.pools[index].state })
            .collect()
    }

    fn user_position(&mut self, tier: usize, user: u64, pool: usize, shares: i128) {
        self.positions.push(Position { user, pool, tier, shares, record: None });
    }

    fn position(&self, tier: usize, user: u64, pool: usize) -> Position {
        *self
            .positions
            .iter()
            .find(|p| p.tier == tier && p.user == user && p.pool == pool)
            .unwrap()
    }

    /// Distribute; the account of the distribution where one is kept.
    fn distribution(&mut self) -> Result<OngoingDistribution, BackstopError> {
        let before = self.emitter.get_last_distro(BACKSTOP);
        let emitted = self.emitter.distribute(self.now);
        let received = if self.pays_other_token { 0 } else { emitted };
        let report = EmissionReport {
            is_current_backstop: self.emitter.get_backstop() == BACKSTOP,
            checkpoint_before: before,
            checkpoint: self.emitter.get_last_distro(BACKSTOP),
            emitted,
            balance_before: if self.binding_verified { None } else { Some(self.blnd) },
            balance_after: self.blnd + received,
        };
        let reading = Some(OngoingReading { lp: compositions(), report });
        let members = self.members();
        let (account, after) = if self.accounts {
            let step = distribute_with_account(
                &self.e,
                &mut self.record,
                &mut self.state,
                &mut self.clock,
                &None,
                &reading,
                BACKSTOP,
                BLND_XLM,
                &members,
                self.now,
            )?;
            match step {
                OngoingStep::Done(account, after) => (account, after),
                step => panic!("distribution asks for {:?}", step),
            }
        } else {
            let step = distribute_to_zone(
                &self.e,
                &mut self.record,
                &mut self.state,
                &mut self.clock,
                &None,
                &reading,
                BACKSTOP,
                BLND_XLM,
                &members,
                self.now,
            )?;
            let allocation = match step {
                DistributeStep::Done(allocation) => allocation,
                step => panic!("distribution asks for {:?}", step),
            };
            let account = OngoingDistribution {
                backstop_allocated: allocation.backstop_allocated,
                backstop_carry: self.state.backstop_carry,
                checkpoint: report.checkpoint,
                eligible_blnd: allocation.eligible_blnd,
                pool_allocated: allocation.pool_allocated,
                pool_carry: self.state.pool_carry,
                distributed: allocation.distributed,
                split_carry: self.state.split_carry,
            };
            (account, allocation.members)
        };
        for member in after {
            self.pools[member.pool as usize].state = member.state;
        }
        self.blnd += received;
        self.binding_verified = true;
        Ok(account)
    }

    fn distribute(&mut self) -> i128 {
        self.distribution().unwrap().distributed
    }

    fn gulp(&mut self, index: usize) -> Result<GulpResult, BackstopError> {
        let pool = &mut self.pools[index];
        let mut streams = PoolStreams {
            state: pool.state,
            blnd_usdc: pool.streams[0],
            blnd_xlm: pool.streams[1],
            last_gulp: pool.last_gulp,
        };
        let run = if self.accounts { gulp_pool_ongoing_emissions } else { gulp_emissions };
        let result = run(
            &self.e,
            true,
            &mut streams,
            &pool.balances[0],
            &pool.balances[1],
            pool.allowance,
            100,
            1_000,
            self.now,
        )?;
        pool.state = streams.state;
        pool.streams = [streams.blnd_usdc, streams.blnd_xlm];
        pool.last_gulp = streams.last_gulp;
        if let Some(approval) = result.approval {
            pool.allowance = approval.allowance;
        }
        Ok(result)
    }

    fn claim_positions(&self, tier: usize, user: u64, pools: &[usize]) -> Vec<ClaimPosition> {
        pools
            .iter()
            .map(|&index| {
                let position = self.position(tier, user, index);
                ClaimPosition {
                    pool: index as u64,
                    unregistered: None,
                    standstill: None,
                    emission: self.pools[index].streams[tier],
                    user: position.record,
                    pool_balance: self.pools[index].balances[tier],
                    user_shares: position.shares,
                    weights: self.weights(index, tier),
                }
            })
            .collect()
    }

    fn claimable(&self, tier: usize, user: u64, pools: &[usize]) -> i128 {
        let positions = self.claim_positions(tier, user, pools);
        let preview = if self.accounts { preview_user_ongoing_blnd } else { preview_claim };
        preview(&self.e, tier_of(tier), &positions, self.now).unwrap()
    }

    /// Claim and deposit into a Comet pool that gives one LP token for 13 BLND. All
    /// is rolled back where a step fails.
    fn claim(
        &mut self,
        tier: usize,
        user: u64,
        pools: &[usize],
        min_lp_tokens_out: i128,
    ) -> Result<i128, BackstopError> {
        let positions = self.claim_positions(tier, user, pools);
        let mut state = self.state;
        let run = if self.accounts { claim_user_ongoing_blnd } else { execute_claim };
        let claims = run(
            &self.e,
            tier_of(tier),
            Ok(()),
            &positions,
            min_lp_tokens_out,
            &mut state,
            self.now,
        )?;
        if claims.blnd_amount == 0 {
            return Ok(0);
        }
        let lp_amount = claims.blnd_amount / 13;
        if lp_amount < min_lp_tokens_out {
            return Err(BackstopError::BalanceError);
        }
        let report = DepositReport {
            blnd_before: self.blnd,
            blnd_after: self.blnd - claims.blnd_amount,
            lp_before: self.lp[tier],
            lp_after: self.lp[tier] + lp_amount,
            lp_amount,
        };
        let allocations = settle_claim(&self.e, &claims, &report)?;
        self.state = state;
        self.blnd = report.blnd_after;
        self.lp[tier] = report.lp_after;
        for claim in &claims.claims {
            self.pools[claim.pool as usize].streams[tier] = claim.emission;
            for position in self.positions.iter_mut() {
                if position.tier == tier
                    && position.user == user
                    && position.pool == claim.pool as usize
                {
                    position.record = claim.user;
                }
            }
        }
        for allocation in &allocations {
            let index = allocation.pool as usize;
            self.pools[index].balances[tier] = allocation.pool_balance;
            for position in self.positions.iter_mut() {
                if position.tier == tier && position.user == user && position.pool == index {
                    position.shares = allocation.user_shares;
                }
            }
            self.pools[index].state = allocation.weights.state;
            let current = self.pools[index].state;
            self.refresh(index);
            assert_eq!(self.pools[index].state, current);
        }
        Ok(lp_amount)
    }

    fn weight_change(&self, pool: usize) -> Result<bool, BackstopError> {
        prepare_pool_weight_change(
            BackstopTier::BlndUsdc,
            true,
            true,
            self.zone.contains(&pool),
            &self.state,
            &self.clock,
            self.now,
        )
        .map(|_| true)
    }

    fn queue(&mut self, user: u64, index: usize, amount: i128) -> Result<(), BackstopError> {
        let change = self.weight_change(index);
        let position = self.position(USDC_TIER, user, index);
        let mut balance = UserBalance { shares: position.shares, q4w: vec![] };
        let mut weights = self.weights(index, USDC_TIER);
        let pool = &mut self.pools[index];
        let mut streams = WeightStreams { emission: pool.streams[0], user: position.record };
        let lengths = QueueLengths { blnd_usdc: 0, blnd_xlm: 0, usdc: 0 };
        execute_queue_withdrawal(
            &self.e,
            &mut pool.balances[0],
            &mut balance,
            &mut streams,
            &mut weights,
            &lengths,
            change,
            amount,
            self.now,
        )?;
        pool.state = weights.state;
        let (usdc, xlm) = (pool.balances[0], pool.balances[1]);
        finish_pool_weight_change(BackstopTier::BlndUsdc, &mut pool.state, &usdc, &xlm)?;
        assert_eq!(pool.state, weights.state);
        Ok(())
    }

    fn deposit(&mut self, index: usize, amount: i128) {
        let change = self.weight_change(index);
        let mut balance = UserBalance { shares: 0, q4w: vec![] };
        let mut weights = self.weights(index, USDC_TIER);
        let pool = &mut self.pools[index];
        let mut streams = WeightStreams { emission: pool.streams[0], user: None };
        execute_deposit(
            &self.e,
            &mut pool.balances[0],
            &mut balance,
            &mut streams,
            &mut weights,
            77,
            78,
            BACKSTOP,
            Ok(()),
            change,
            amount,
            self.now,
        )
        .unwrap();
        pool.state = weights.state;
        let (usdc, xlm) = (pool.balances[0], pool.balances[1]);
        finish_pool_weight_change(BackstopTier::BlndUsdc, &mut pool.state, &usdc, &xlm).unwrap();
        assert_eq!(pool.state, weights.state);
    }
}

fn backfill_weights_use_active_blnd_usdc_lp_tokens(accounts: bool) {
    let mut fixture = Fixture::create(accounts);
    let first = fixture.pool(10 * SCALAR_7, 0);
    let second = fixture.pool(20 * SCALAR_7, 20 * SCALAR_7);
    fixture.set_reward_zone(&[first, second]);

    let (weights, total_weight) =
        collect_weights(&fixture.e, &fixture.members(), false, &compositions()).unwrap();
    assert_eq!(total_weight, 30 * SCALAR_7);
    assert_eq!(weights.len(), 2);
    assert_eq!(weights[0].pool, first as u64);
    assert_eq!(
        weights[0].state,
        PoolOngoingEmissions { active_blnd_usdc: 10 * SCALAR_7, ..EMPTY }
    );
    assert_eq!((weights[0].blnd_usdc, weights[0].blnd_xlm), (10 * SCALAR_7, 0));
    assert_eq!(weights[1].pool, second as u64);
    assert_eq!(
        weights[1].state,
        PoolOngoingEmissions {
            active_blnd_usdc: 20 * SCALAR_7,
            active_blnd_xlm: 20 * SCALAR_7,
            ..EMPTY
        }
    );
    assert_eq!((weights[1].blnd_usdc, weights[1].blnd_xlm), (20 * SCALAR_7, 0));
}

#[test]
fn manager_backfill_weights_use_active_blnd_usdc_lp_tokens() {
    backfill_weights_use_active_blnd_usdc_lp_tokens(false);
}

#[test]
fn ongoing_backfill_weights_use_active_blnd_usdc_lp_tokens() {
    backfill_weights_use_active_blnd_usdc_lp_tokens(true);
}

fn tier_stream_rolls_unfinished_emissions_into_a_fresh_seven_days(accounts: bool) {
    let e = Env::new_with_config(EnvTestConfig { capture_snapshot_at_drop: false });
    let active_shares = 10 * SCALAR_7;
    let pool = PoolBalance { q4w: 0, shares: active_shares, tokens: active_shares };
    let allocation = 7 * SCALAR_7;
    let start = 1_000;
    let set_eps = if accounts { stream_eps } else { set_backstop_emission_eps };
    let (mut emission, mut record) = (None, None);
    set_eps(&e, &mut emission, &pool, allocation, start).unwrap();
    assert_eq!(emission.unwrap().expiration, start + STREAM_SECONDS);

    let next_gulp = start + 24 * 60 * 60;
    let first_day =
        update_emissions(&e, &mut emission, &mut record, &pool, active_shares, next_gulp).unwrap();
    assert!((SCALAR_7 - 1..=SCALAR_7).contains(&first_day.accrued));

    set_eps(&e, &mut emission, &pool, allocation, next_gulp).unwrap();
    let completed = update_emissions(
        &e,
        &mut emission,
        &mut record,
        &pool,
        active_shares,
        next_gulp + STREAM_SECONDS,
    )
    .unwrap();
    assert_eq!(completed.accrued, 2 * allocation);
    assert_eq!(emission.unwrap().schedule_carry, 0);
}

#[test]
fn manager_tier_stream_rolls_unfinished_emissions_into_a_fresh_seven_days() {
    tier_stream_rolls_unfinished_emissions_into_a_fresh_seven_days(false);
}

#[test]
fn ongoing_tier_stream_rolls_unfinished_emissions_into_a_fresh_seven_days() {
    tier_stream_rolls_unfinished_emissions_into_a_fresh_seven_days(true);
}

fn allocates_by_emitter_checkpoint_and_ignores_unrelated_blnd(accounts: bool) {
    let mut fixture = Fixture::create(accounts);
    let first = fixture.pool(10 * SCALAR_7, 0);
    let second = fixture.pool(0, 10 * SCALAR_7);
    fixture.set_reward_zone(&[first, second]);

    fixture.now = 1_010;
    assert_eq!(
        fixture.distribution(),
        Ok(OngoingDistribution {
            backstop_allocated: 7 * SCALAR_7,
            backstop_carry: 0,
            checkpoint: 1_010,
            eligible_blnd: 200 * SCALAR_7,
            pool_allocated: 3 * SCALAR_7,
            pool_carry: 0,
            distributed: 10 * SCALAR_7,
            split_carry: 0,
        })
    );
    for pool in [first, second] {
        assert_eq!(
            fixture.pools[pool].state,
            PoolOngoingEmissions {
                accrued_pool: 15_000_000,
                active_blnd_usdc: if pool == first { 10 * SCALAR_7 } else { 0 },
                active_blnd_xlm: if pool == second { 10 * SCALAR_7 } else { 0 },
                backstop_tier_carry: 0,
                pending_blnd_usdc: if pool == first { 35_000_000 } else { 0 },
                pending_blnd_xlm: if pool == second { 35_000_000 } else { 0 },
            }
        );
    }
    assert!(fixture.binding_verified);

    fixture.blnd += 1;
    fixture.now = 1_015;
    let second_distribution = fixture.distribution().unwrap();
    assert_eq!(second_distribution.distributed, 5 * SCALAR_7);
    assert_eq!(second_distribution.split_carry, 0);
    assert_eq!(
        fixture.state,
        OngoingEmissionState {
            backstop_allocated: 105_000_000,
            backstop_carry: 0,
            backstop_claimed: 0,
            last_distribution: Some(1_015),
            pool_allocated: 45_000_000,
            pool_carry: 0,
            split_carry: 0,
            total_distributed: 15 * SCALAR_7,
        }
    );
}

#[test]
fn manager_allocates_by_emitter_checkpoint_and_ignores_unrelated_blnd() {
    allocates_by_emitter_checkpoint_and_ignores_unrelated_blnd(false);
}

#[test]
fn ongoing_allocates_by_emitter_checkpoint_and_ignores_unrelated_blnd() {
    allocates_by_emitter_checkpoint_and_ignores_unrelated_blnd(true);
}

fn first_positive_distribution_binds_the_configured_blnd_token(accounts: bool) {
    let mut fixture = Fixture::create(accounts);
    let pool = fixture.pool(10 * SCALAR_7, 0);
    fixture.set_reward_zone(&[pool]);
    fixture.now = 1_005;

    assert!(!fixture.binding_verified);
    assert_eq!(fixture.distribute(), 5 * SCALAR_7);
    assert!(fixture.binding_verified);
    assert_eq!(fixture.blnd, 5 * SCALAR_7);
}

#[test]
fn manager_first_positive_distribution_binds_the_configured_blnd_token() {
    first_positive_distribution_binds_the_configured_blnd_token(false);
}

#[test]
fn ongoing_first_positive_distribution_binds_the_configured_blnd_token() {
    first_positive_distribution_binds_the_configured_blnd_token(true);
}

fn direct_emitter_call_is_allocated_once_at_the_next_checkpoint(accounts: bool) {
    let mut fixture = Fixture::create(accounts);
    let pool = fixture.pool(10 * SCALAR_7, 0);
    fixture.set_reward_zone(&[pool]);

    fixture.now = 1_005;
    let direct = fixture.emitter.distribute(fixture.now);
    assert_eq!(direct, 5 * SCALAR_7);
    fixture.blnd += direct;
    fixture.now = 1_010;
    assert_eq!(fixture.distribute(), 10 * SCALAR_7);
    assert!(fixture.binding_verified);

    fixture.now = 1_015;
    assert_eq!(fixture.distribute(), 5 * SCALAR_7);
    assert_eq!(fixture.state.total_distributed, 15 * SCALAR_7);
}

#[test]
fn manager_direct_emitter_call_is_allocated_once_at_the_next_checkpoint() {
    direct_emitter_call_is_allocated_once_at_the_next_checkpoint(false);
}

#[test]
fn ongoing_direct_emitter_call_is_allocated_once_at_the_next_checkpoint() {
    direct_emitter_call_is_allocated_once_at_the_next_checkpoint(true);
}

fn claim_preview_is_read_only(accounts: bool) {
    let mut fixture = Fixture::create(accounts);
    let pool = fixture.pool(10 * SCALAR_7, 0);
    fixture.user_position(USDC_TIER, 9, pool, 10 * SCALAR_7);
    fixture.set_reward_zone(&[pool]);
    fixture.now = 1_010;
    fixture.distribute();
    assert_eq!(fixture.claimable(USDC_TIER, 9, &[pool]), 0);
    assert_eq!(fixture.gulp(pool).unwrap().pool, 3 * SCALAR_7);
    fixture.now = 1_010 + STREAM_SECONDS;

    let stored_before = fixture.position(USDC_TIER, 9, pool).record;
    assert_eq!(fixture.claimable(USDC_TIER, 9, &[pool]), 7 * SCALAR_7);
    let stored_after = fixture.position(USDC_TIER, 9, pool).record;
    assert_eq!(stored_after, stored_before);
}

#[test]
fn manager_claim_preview_is_read_only() {
    claim_preview_is_read_only(false);
}

#[test]
fn ongoing_claim_preview_is_read_only() {
    claim_preview_is_read_only(true);
}

fn users_claim_only_the_two_blnd_tier_allocations(accounts: bool) {
    let mut fixture = Fixture::create(accounts);
    let pool = fixture.pool(10 * SCALAR_7, 10 * SCALAR_7);
    fixture.user_position(USDC_TIER, 8, pool, 10 * SCALAR_7);
    fixture.user_position(XLM_TIER, 9, pool, 10 * SCALAR_7);
    fixture.set_reward_zone(&[pool]);

    fixture.now = 1_010;
    fixture.distribute();
    assert_eq!(fixture.gulp(pool).unwrap().pool, 3 * SCALAR_7);
    fixture.now = 1_010 + STREAM_SECONDS;
    assert_eq!(fixture.claimable(USDC_TIER, 8, &[pool]), 35_000_000);
    assert_eq!(fixture.claimable(XLM_TIER, 9, &[pool]), 35_000_000);
    fixture.distribute();

    let blnd_before = fixture.blnd;
    let lp_before = fixture.lp;
    let blnd_usdc_out = fixture.claim(USDC_TIER, 8, &[pool], 0).unwrap();
    assert_eq!(fixture.claimable(USDC_TIER, 8, &[pool]), 0);
    assert_eq!(fixture.claimable(XLM_TIER, 9, &[pool]), 35_000_000);
    let blnd_xlm_out = fixture.claim(XLM_TIER, 9, &[pool], 0).unwrap();
    assert!(blnd_usdc_out > 0);
    assert!(blnd_xlm_out > 0);
    assert_eq!(fixture.blnd, blnd_before - 70_000_000);
    assert_eq!(fixture.lp[USDC_TIER], lp_before[USDC_TIER] + blnd_usdc_out);
    assert_eq!(fixture.lp[XLM_TIER], lp_before[XLM_TIER] + blnd_xlm_out);
    assert_eq!(fixture.state.backstop_claimed, 7 * SCALAR_7);
    assert!(fixture.pools[pool].state.accrued_pool > 3 * SCALAR_7);
}

#[test]
fn manager_users_claim_only_the_two_blnd_tier_allocations() {
    users_claim_only_the_two_blnd_tier_allocations(false);
}

#[test]
fn ongoing_users_claim_only_the_two_blnd_tier_allocations() {
    users_claim_only_the_two_blnd_tier_allocations(true);
}

fn failed_compounding_preserves_the_tier_accrual(accounts: bool) {
    let mut fixture = Fixture::create(accounts);
    let pool = fixture.pool(10 * SCALAR_7, 0);
    fixture.user_position(USDC_TIER, 9, pool, 10 * SCALAR_7);
    fixture.set_reward_zone(&[pool]);

    fixture.now = 1_010;
    fixture.distribute();
    assert_eq!(fixture.gulp(pool).unwrap().pool, 3 * SCALAR_7);
    fixture.now = 1_010 + STREAM_SECONDS;
    fixture.distribute();
    let accrued = fixture.claimable(USDC_TIER, 9, &[pool]);
    let blnd_before = fixture.blnd;
    let shares_before = fixture.position(USDC_TIER, 9, pool).shares;

    assert!(fixture.claim(USDC_TIER, 9, &[pool], i128::MAX).is_err());
    assert_eq!(fixture.claimable(USDC_TIER, 9, &[pool]), accrued);
    assert_eq!(fixture.blnd, blnd_before);
    assert_eq!(fixture.position(USDC_TIER, 9, pool).shares, shares_before);
    assert_eq!(fixture.state.backstop_claimed, 0);
}

#[test]
fn manager_failed_compounding_preserves_the_tier_accrual() {
    failed_compounding_preserves_the_tier_accrual(false);
}

#[test]
fn ongoing_failed_compounding_preserves_the_tier_accrual() {
    failed_compounding_preserves_the_tier_accrual(true);
}

fn claim_batches_pool_addresses_for_one_tier(accounts: bool) {
    let mut fixture = Fixture::create(accounts);
    let first = fixture.pool(10 * SCALAR_7, 0);
    let second = fixture.pool(20 * SCALAR_7, 0);
    fixture.user_position(USDC_TIER, 9, first, 10 * SCALAR_7);
    fixture.user_position(USDC_TIER, 9, second, 20 * SCALAR_7);
    fixture.set_reward_zone(&[first, second]);

    fixture.now = 1_010;
    fixture.distribute();
    assert!(fixture.gulp(first).unwrap().pool > 0);
    assert!(fixture.gulp(second).unwrap().pool > 0);
    fixture.now = 1_010 + STREAM_SECONDS;
    fixture.distribute();

    let pools = [first, second];
    let aggregate_claim = fixture.claimable(USDC_TIER, 9, &pools);
    assert!(aggregate_claim > 0);
    let first_shares = fixture.position(USDC_TIER, 9, first).shares;
    let second_shares = fixture.position(USDC_TIER, 9, second).shares;
    let blnd_before = fixture.blnd;
    let lp_before = fixture.lp[USDC_TIER];

    let lp_out = fixture.claim(USDC_TIER, 9, &pools, 0).unwrap();
    assert!(lp_out > 0);
    assert_eq!(fixture.blnd, blnd_before - aggregate_claim);
    assert_eq!(fixture.lp[USDC_TIER], lp_before + lp_out);
    assert_eq!(fixture.claimable(USDC_TIER, 9, &pools), 0);
    assert!(fixture.position(USDC_TIER, 9, first).shares > first_shares);
    assert!(fixture.position(USDC_TIER, 9, second).shares > second_shares);
    assert_eq!(fixture.state.backstop_claimed, aggregate_claim);
}

#[test]
fn manager_claim_batches_pool_addresses_for_one_tier() {
    claim_batches_pool_addresses_for_one_tier(false);
}

#[test]
fn ongoing_claim_batches_pool_addresses_for_one_tier() {
    claim_batches_pool_addresses_for_one_tier(true);
}

fn claim_rejects_invalid_scope(accounts: bool) {
    let mut fixture = Fixture::create(accounts);
    let pool = fixture.pool(10 * SCALAR_7, 0);
    fixture.user_position(USDC_TIER, 9, pool, 0);
    let run = if accounts { claim_user_ongoing_blnd } else { execute_claim };
    let mut claim = |tier, positions: Vec<ClaimPosition>, min: i128| {
        let state = &mut OngoingEmissionState::empty_at(1_000);
        run(&fixture.e, tier, Ok(()), &positions, min, state, 1_000).map(|c| c.blnd_amount)
    };
    let good = ClaimPosition {
        pool: pool as u64,
        unregistered: None,
        standstill: None,
        emission: None,
        user: None,
        pool_balance: PoolBalance { q4w: 0, shares: 1, tokens: 1 },
        user_shares: 0,
        weights: fixture.weights(pool, USDC_TIER),
    };
    let unknown = ClaimPosition { pool: 99, unregistered: Some(BackstopError::NotPool), ..good };

    assert_eq!(claim(BackstopTier::BlndUsdc, vec![], 0), Err(BackstopError::BadRequest));
    assert_eq!(
        claim(BackstopTier::Usdc, vec![good], 0),
        Err(BackstopError::InvalidEmissionValue)
    );
    assert_eq!(claim(BackstopTier::BlndUsdc, vec![unknown], 0), Err(BackstopError::NotPool));
    let still =
        ClaimPosition { standstill: Some(BackstopError::DistributionCheckpointRequired), ..good };
    assert_eq!(
        claim(BackstopTier::BlndUsdc, vec![still], 0),
        Err(BackstopError::DistributionCheckpointRequired)
    );
    let neither = ClaimPosition { unregistered: Some(BackstopError::NotPool), ..still };
    assert_eq!(claim(BackstopTier::BlndUsdc, vec![neither], 0), Err(BackstopError::NotPool));
    assert_eq!(
        claim(BackstopTier::BlndUsdc, vec![good, good], 0),
        Err(BackstopError::BadRequest)
    );
    assert_eq!(
        claim(BackstopTier::BlndUsdc, vec![good], -1),
        Err(BackstopError::NegativeAmountError)
    );
    assert_eq!(claim(BackstopTier::BlndUsdc, vec![good], 0), Ok(0));
}

#[test]
fn manager_claim_rejects_invalid_scope() {
    claim_rejects_invalid_scope(false);
}

#[test]
fn ongoing_claim_rejects_invalid_scope() {
    claim_rejects_invalid_scope(true);
}

fn pool_tranche_is_allowed_and_spent_by_the_registered_pool(accounts: bool) {
    let mut fixture = Fixture::create(accounts);
    let pool = fixture.pool(10 * SCALAR_7, 0);
    fixture.set_reward_zone(&[pool]);

    fixture.now = 1_010;
    fixture.distribute();
    let gulp = fixture.gulp(pool).unwrap();
    assert_eq!(gulp.pool, 3 * SCALAR_7);
    assert_eq!(
        gulp.approval,
        Some(Approval { allowance: 3 * SCALAR_7, expiration_ledger: 1_100 })
    );
    assert_eq!(fixture.pools[pool].allowance, 3 * SCALAR_7);
    assert_eq!(fixture.pools[pool].last_gulp, Some(1_010));
    assert_eq!(fixture.gulp(pool), Err(BackstopError::PoolEmissionGulpTooSoon));

    fixture.pools[pool].allowance -= SCALAR_7;
    fixture.blnd -= SCALAR_7;
    assert_eq!(fixture.pools[pool].allowance, 2 * SCALAR_7);

    fixture.now = 1_015;
    assert_eq!(fixture.distribute(), 5 * SCALAR_7);
}

#[test]
fn manager_pool_tranche_is_allowed_and_spent_by_the_registered_pool() {
    pool_tranche_is_allowed_and_spent_by_the_registered_pool(false);
}

#[test]
fn ongoing_pool_tranche_is_allowed_and_spent_by_the_registered_pool() {
    pool_tranche_is_allowed_and_spent_by_the_registered_pool(true);
}

fn rejects_emitter_output_in_a_different_token(accounts: bool) {
    let mut fixture = Fixture::create(accounts);
    fixture.pays_other_token = true;
    let pool = fixture.pool(10 * SCALAR_7, 0);
    fixture.set_reward_zone(&[pool]);
    fixture.now = 1_005;

    assert!(fixture.distribution().is_err());
    assert!(!fixture.binding_verified);
    assert_eq!(
        fixture.state,
        OngoingEmissionState {
            backstop_allocated: 0,
            backstop_carry: 0,
            backstop_claimed: 0,
            last_distribution: Some(1_000),
            pool_allocated: 0,
            pool_carry: 0,
            split_carry: 0,
            total_distributed: 0,
        }
    );
    assert_eq!(fixture.clock, ZoneClock { checkpoint: None, started: false });
}

#[test]
fn manager_rejects_emitter_output_in_a_different_token() {
    rejects_emitter_output_in_a_different_token(false);
}

#[test]
fn ongoing_rejects_emitter_output_in_a_different_token() {
    rejects_emitter_output_in_a_different_token(true);
}

fn maximum_reward_zone_is_distributed_in_one_call(accounts: bool) {
    let mut fixture = Fixture::create(accounts);
    let pools: Vec<usize> = (0..MAX_RZ_SIZE).map(|_| fixture.pool(SCALAR_7, 0)).collect();
    fixture.set_reward_zone(&pools);
    fixture.now = 1_005;

    let distribution = fixture.distribution().unwrap();
    assert_eq!(distribution.distributed, 5 * SCALAR_7);
    assert_eq!(distribution.eligible_blnd, 300 * SCALAR_7);
    for pool in pools {
        let emissions = fixture.pools[pool].state;
        assert!(emissions.pending_blnd_usdc > 0 || emissions.pending_blnd_xlm > 0);
        assert!(emissions.accrued_pool > 0);
    }
}

#[test]
fn manager_maximum_reward_zone_is_distributed_in_one_call() {
    maximum_reward_zone_is_distributed_in_one_call(false);
}

#[test]
fn ongoing_maximum_reward_zone_is_distributed_in_one_call() {
    maximum_reward_zone_is_distributed_in_one_call(true);
}

fn zero_eligible_blnd_is_carried_until_a_blnd_tier_is_deposited(accounts: bool) {
    let mut fixture = Fixture::create(accounts);
    let pool = fixture.pool(0, 0);
    fixture.set_reward_zone(&[pool]);
    fixture.now = 1_005;

    assert_eq!(
        fixture.distribution(),
        Ok(OngoingDistribution {
            backstop_allocated: 0,
            backstop_carry: 35_000_000,
            checkpoint: 1_005,
            eligible_blnd: 0,
            pool_allocated: 0,
            pool_carry: 15_000_000,
            distributed: 5 * SCALAR_7,
            split_carry: 0,
        })
    );
    assert_eq!(
        fixture.state,
        OngoingEmissionState {
            backstop_allocated: 0,
            backstop_carry: 35_000_000,
            backstop_claimed: 0,
            last_distribution: Some(1_005),
            pool_allocated: 0,
            pool_carry: 15_000_000,
            split_carry: 0,
            total_distributed: 5 * SCALAR_7,
        }
    );

    fixture.deposit(pool, SCALAR_7);
    assert_eq!(fixture.pools[pool].state.active_blnd_usdc, SCALAR_7);

    fixture.now = 1_010;
    assert_eq!(
        fixture.distribution(),
        Ok(OngoingDistribution {
            backstop_allocated: 7 * SCALAR_7,
            backstop_carry: 0,
            checkpoint: 1_010,
            eligible_blnd: 10 * SCALAR_7,
            pool_allocated: 3 * SCALAR_7,
            pool_carry: 0,
            distributed: 5 * SCALAR_7,
            split_carry: 0,
        })
    );
}

#[test]
fn manager_zero_eligible_blnd_is_carried_until_a_blnd_tier_is_deposited() {
    zero_eligible_blnd_is_carried_until_a_blnd_tier_is_deposited(false);
}

#[test]
fn ongoing_zero_eligible_blnd_is_carried_until_a_blnd_tier_is_deposited() {
    zero_eligible_blnd_is_carried_until_a_blnd_tier_is_deposited(true);
}

fn stale_checkpoint_rejects_active_weight_changes(accounts: bool) {
    let mut fixture = Fixture::create(accounts);
    let pool = fixture.pool(10 * SCALAR_7, 0);
    fixture.user_position(USDC_TIER, 9, pool, 10 * SCALAR_7);
    fixture.set_reward_zone(&[pool]);
    fixture.now = 1_010;
    fixture.distribute();

    fixture.now = 1_016;
    assert_eq!(
        fixture.queue(9, pool, SCALAR_7),
        Err(BackstopError::DistributionCheckpointRequired)
    );
}

#[test]
fn manager_stale_checkpoint_rejects_active_weight_changes() {
    stale_checkpoint_rejects_active_weight_changes(false);
}

#[test]
fn ongoing_stale_checkpoint_rejects_active_weight_changes() {
    stale_checkpoint_rejects_active_weight_changes(true);
}

fn fresh_checkpoint_allows_and_refreshes_active_weight_changes(accounts: bool) {
    let mut fixture = Fixture::create(accounts);
    let pool = fixture.pool(10 * SCALAR_7, 0);
    fixture.user_position(USDC_TIER, 9, pool, 10 * SCALAR_7);
    fixture.set_reward_zone(&[pool]);
    fixture.now = 1_010;
    fixture.distribute();

    fixture.now = 1_016;
    fixture.distribute();
    fixture.queue(9, pool, SCALAR_7).unwrap();
    assert_eq!(fixture.pools[pool].state.active_blnd_usdc, 9 * SCALAR_7);
}

#[test]
fn manager_fresh_checkpoint_allows_and_refreshes_active_weight_changes() {
    fresh_checkpoint_allows_and_refreshes_active_weight_changes(false);
}

#[test]
fn ongoing_fresh_checkpoint_allows_and_refreshes_active_weight_changes() {
    fresh_checkpoint_allows_and_refreshes_active_weight_changes(true);
}

#[test]
fn distributions_ask_for_what_the_migration_needs() {
    let mut fixture = Fixture::create(false);
    let pool = fixture.pool(10 * SCALAR_7, 0);
    fixture.set_reward_zone(&[pool]);
    fixture.now = 1_100;
    let members = fixture.members();
    let pending = MigrationRecord {
        migration_epoch_start: None,
        verified_queue_unlock: None,
        activated_at: None,
        backfill_end: None,
        scheduled_backfill: 0,
    };
    for (mut record, active) in [(fixture.record, true), (pending, false)] {
        let before = (record, fixture.state, fixture.clock);
        let step = distribute_to_zone(
            &fixture.e,
            &mut record,
            &mut fixture.state,
            &mut fixture.clock,
            &None,
            &None,
            BACKSTOP,
            BLND_XLM,
            &members,
            fixture.now,
        );
        assert!(match step {
            Ok(DistributeStep::CallEmitter) => active,
            Ok(DistributeStep::ReadEmitter) => !active,
            _ => false,
        });
        let account = distribute_with_account(
            &fixture.e,
            &mut record,
            &mut fixture.state,
            &mut fixture.clock,
            &None,
            &None,
            BACKSTOP,
            BLND_XLM,
            &members,
            fixture.now,
        );
        assert!(match account {
            Ok(OngoingStep::CallEmitter) => active,
            Ok(OngoingStep::ReadEmitter) => !active,
            _ => false,
        });
        assert_eq!((record, fixture.state, fixture.clock), before);
    }
}

#[test]
fn pending_distributions_account_for_the_backfill() {
    let mut fixture = Fixture::create(true);
    let pool = fixture.pool(10 * SCALAR_7, 0);
    fixture.set_reward_zone(&[pool]);
    let members = fixture.members();
    fixture.record = MigrationRecord {
        migration_epoch_start: Some(1_000),
        verified_queue_unlock: None,
        activated_at: None,
        backfill_end: None,
        scheduled_backfill: 0,
    };
    let view =
        EmitterView { is_current_backstop: false, queued: None, last_distribution: 0 };
    let step = distribute_with_account(
        &fixture.e,
        &mut fixture.record,
        &mut fixture.state,
        &mut fixture.clock,
        &Some(view),
        &None,
        BACKSTOP,
        BLND_XLM,
        &members,
        1_010,
    )
    .unwrap();
    let OngoingStep::Done(account, after) = step else { panic!("not distributed") };
    assert_eq!(
        account,
        OngoingDistribution {
            backstop_allocated: 7 * SCALAR_7,
            backstop_carry: 0,
            checkpoint: 1_010,
            eligible_blnd: 10 * SCALAR_7,
            pool_allocated: 3 * SCALAR_7,
            pool_carry: 0,
            distributed: 10 * SCALAR_7,
            split_carry: 0,
        }
    );
    assert_eq!(after[0].state.accrued_pool, 3 * SCALAR_7);
    assert_eq!(after[0].state.pending_blnd_usdc, 7 * SCALAR_7);
    assert_eq!(fixture.record.scheduled_backfill, 10 * SCALAR_7);
    assert_eq!(fixture.state.last_distribution, Some(1_010));
}

#[test]
fn a_second_claim_at_the_same_time_gets_nothing() {
    for accounts in [false, true] {
        let mut fixture = Fixture::create(accounts);
        let pool = fixture.pool(10 * SCALAR_7, 0);
        fixture.set_reward_zone(&[pool]);
        fixture.user_position(USDC_TIER, 9, pool, 10 * SCALAR_7);
        fixture.now = 1_100;
        fixture.distribute();
        fixture.gulp(pool).unwrap();
        fixture.now = 1_100 + STREAM_SECONDS;
        let shares = fixture.position(USDC_TIER, 9, pool).shares;
        assert!(fixture.claim(USDC_TIER, 9, &[pool], 0).unwrap() > 0);

        let position = fixture.position(USDC_TIER, 9, pool);
        assert!(position.shares > shares);
        let (state, stream) = (fixture.state, fixture.pools[pool].streams[USDC_TIER]);
        assert_eq!(fixture.claim(USDC_TIER, 9, &[pool], 0), Ok(0));
        assert_eq!(fixture.claimable(USDC_TIER, 9, &[pool]), 0);
        assert_eq!(fixture.state, state);
        assert_eq!(fixture.pools[pool].streams[USDC_TIER], stream);
        assert_eq!(fixture.position(USDC_TIER, 9, pool).record, position.record);
    }
}
