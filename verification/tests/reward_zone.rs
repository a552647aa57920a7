//! Membership of the reward zone.

use backstop::backstop::pool::{ActivationQuote, CometReading, PoolBalance};
use backstop::backstop::valuation::{
    build_pool_valuation, quote_activation, ActivationThresholds, TierBalances,
};
use backstop::constants::{ACTIVATION_THRESHOLD_USDC, MAX_RZ_SIZE, SCALAR_7};
use backstop::emissions::manager;
use backstop::emissions::policy::{pool_spot_blnt_emission_weight, LpPosition};
use backstop::emissions::reward_zone::{
    add_to_reward_zone, get_reward_zone, get_reward_zone_checkpoint, remove_from_reward_zone,
    Departing, Entrant, Leaver, RewardZone, RewardZoneCheckpoint, CHECKPOINT_MAX_AGE_SECONDS,
};
use backstop::emissions::tier_accounting::pool_weight;
use backstop::errors::BackstopError;
use backstop::migration::require_weight_mutation_allowed;
use backstop::storage::{PoolOngoingEmissions, ZoneClock};
use soroban_sdk::testutils::EnvTestConfig;
use soroban_sdk::Env;

const ENTRY: i128 = ACTIVATION_THRESHOLD_USDC;
const MAINTENANCE: i128 = ACTIVATION_THRESHOLD_USDC - 2_500 * SCALAR_7;
const NOW: u64 = 10_000;

#[derive(Clone, Copy)]
struct Pool {
    blnd_usdc: PoolBalance,
    usdc: PoolBalance,
    record: PoolOngoingEmissions,
}

const EMPTY: PoolOngoingEmissions = PoolOngoingEmissions {
    accrued_pool: 0,
    active_blnd_usdc: 0,
    active_blnd_xlm: 0,
    backstop_tier_carry: 0,
    pending_blnd_usdc: 0,
    pending_blnd_xlm: 0,
};

/// A backstop whose migration is pending. `by_tokens` selects the zone that weighs
/// pools by their LP tokens until the migration is active.
struct Fixture {
    e: Env,
    by_tokens: bool,
    pools: Vec<Pool>,
    zone: RewardZone,
    clock: ZoneClock,
}

fn env() -> Env {
    Env::new_with_config(EnvTestConfig { capture_snapshot_at_drop: false })
}

fn members(zone: &RewardZone) -> Vec<u64> {
    (0..zone.len()).map(|i| zone.get(i).unwrap()).collect()
}

fn balance(assets: i128, queued_shares: i128) -> PoolBalance {
    PoolBalance { q4w: queued_shares, shares: assets, tokens: assets }
}

impl Fixture {
    fn create(by_tokens: bool) -> Self {
        let e = env();
        Fixture {
            zone: RewardZone::new(&e),
            e,
            by_tokens,
            pools: vec![],
            clock: ZoneClock { checkpoint: None, started: false },
        }
    }

    fn pool(&mut self, blnd_usdc: i128, queued_blnd_usdc: i128, usdc: i128) -> u64 {
        self.pools.push(Pool {
            blnd_usdc: balance(blnd_usdc, queued_blnd_usdc),
            usdc: balance(usdc, 0),
            record: EMPTY,
        });
        self.pools.len() as u64 - 1
    }

    fn activation(
        &self,
        pool: u64,
        currently_active: bool,
    ) -> Result<ActivationQuote, BackstopError> {
        let comet = CometReading {
            total_supply: 100 * SCALAR_7,
            blnd_reserve: 1_000 * SCALAR_7,
            pair_reserve: 25 * SCALAR_7,
            blnd_weight: 8_000_000,
            pair_weight: 2_000_000,
        };
        let pool = self.pools[pool as usize];
        let balances = TierBalances {
            blnd_usdc: pool.blnd_usdc,
            blnd_xlm: balance(0, 0),
            usdc: pool.usdc,
        };
        let valuation =
            build_pool_valuation(&self.e, true, &balances, Some(comet), Some(comet))?;
        let thresholds = ActivationThresholds { entry: ENTRY, maintenance: MAINTENANCE };
        quote_activation(&valuation.active_values, currently_active, &thresholds)
    }

    fn weight(&self, pool: u64) -> Result<i128, BackstopError> {
        let position = Some(LpPosition {
            balance: self.pools[pool as usize].blnd_usdc,
            total_supply: 100 * SCALAR_7,
            blnt_reserve: 1_000 * SCALAR_7,
        });
        if self.by_tokens {
            pool_weight(&self.e, false, &position, &None)
        } else {
            pool_spot_blnt_emission_weight(&self.e, &position, &None)
        }
    }

    fn add(&mut self, pool: u64, to_remove: Option<u64>) -> Result<Option<u64>, BackstopError> {
        let gate = require_weight_mutation_allowed(false, false);
        let entrant = Entrant {
            pool,
            activation: self.activation(pool, false),
            weight: self.weight(pool),
            blnd_usdc: Some(self.pools[pool as usize].blnd_usdc),
            blnd_xlm: None,
        };
        let leaver = to_remove.map(|pool| Leaver { pool, weight: self.weight(pool) });
        let record = &mut self.pools[pool as usize].record;
        if self.by_tokens {
            manager::add_to_reward_zone(
                gate,
                false,
                &mut self.zone,
                &entrant,
                record,
                &leaver,
                &self.clock,
                NOW,
            )
        } else {
            add_to_reward_zone(gate, &mut self.zone, &entrant, record, &leaver, &self.clock, NOW)
        }
    }

    fn remove(&mut self, pool: u64) -> Result<(), BackstopError> {
        let gate = require_weight_mutation_allowed(false, false);
        let departing = Departing {
            pool,
            weight: self.weight(pool),
            activation: self.activation(pool, true),
        };
        let run = if self.by_tokens {
            manager::remove_from_reward_zone
        } else {
            remove_from_reward_zone
        };
        run(gate, &mut self.zone, &departing, &self.clock, NOW)
    }

    fn mark_distribution_started(&mut self, timestamp: u64) {
        self.clock = ZoneClock { checkpoint: Some(timestamp), started: true };
    }
}

fn membership_is_bounded_checkpoint_gated_after_distribution_and_blnd_weighted(by_tokens: bool) {
    let mut fixture = Fixture::create(by_tokens);
    let first = fixture.pool(SCALAR_7, 0, ENTRY - SCALAR_7);
    fixture.add(first, None).unwrap();
    assert_eq!(members(&fixture.zone), vec![first]);

    let second = fixture.pool(SCALAR_7, 0, ENTRY - SCALAR_7);
    fixture.add(second, None).unwrap();

    let third = fixture.pool(SCALAR_7, 0, ENTRY - SCALAR_7);
    fixture.mark_distribution_started(NOW - CHECKPOINT_MAX_AGE_SECONDS - 1);
    assert_eq!(
        fixture.add(third, None),
        Err(BackstopError::DistributionCheckpointRequired)
    );
    fixture.mark_distribution_started(NOW);
    fixture.add(third, None).unwrap();

    while fixture.zone.len() < MAX_RZ_SIZE {
        let pool = fixture.pool(SCALAR_7, 0, ENTRY - SCALAR_7);
        fixture.add(pool, None).unwrap();
    }
    let removed = fixture.zone.get(MAX_RZ_SIZE - 1).unwrap();
    let equal = fixture.pool(2 * SCALAR_7, SCALAR_7, ENTRY);
    assert_eq!(
        fixture.add(equal, Some(removed)),
        Err(BackstopError::InvalidRewardZoneEntry)
    );
    assert_eq!(fixture.add(equal, None), Err(BackstopError::RewardZoneFull));

    fixture.pools[equal as usize].blnd_usdc = balance(2 * SCALAR_7, 0);
    assert_eq!(fixture.add(equal, Some(removed)), Ok(Some(removed)));
    assert_eq!(fixture.zone.len(), MAX_RZ_SIZE);
    assert_eq!(fixture.zone.get(0), Some(equal));
    assert!(fixture.zone.contains(third));
    assert!(!fixture.zone.contains(removed));
}

#[test]
fn manager_membership_is_bounded_checkpoint_gated_after_distribution_and_blnd_weighted() {
    membership_is_bounded_checkpoint_gated_after_distribution_and_blnd_weighted(true);
}

#[test]
fn reward_zone_membership_is_bounded_checkpoint_gated_after_distribution_and_blnd_weighted() {
    membership_is_bounded_checkpoint_gated_after_distribution_and_blnd_weighted(false);
}

fn entry_requires_value_and_blnd_while_removal_uses_hysteresis(by_tokens: bool) {
    let mut fixture = Fixture::create(by_tokens);
    let usdc_only = fixture.pool(0, 0, ENTRY);
    assert!(fixture.add(usdc_only, None).is_err());

    let pool = fixture.pool(SCALAR_7, 0, ENTRY - SCALAR_7);
    fixture.add(pool, None).unwrap();
    fixture.mark_distribution_started(NOW);
    fixture.pools[pool as usize].usdc = balance(MAINTENANCE, 0);
    assert!(fixture.remove(pool).is_err());

    fixture.pools[pool as usize].usdc = balance(MAINTENANCE - 2 * SCALAR_7, 0);
    fixture.remove(pool).unwrap();
    assert_eq!(fixture.zone.len(), 0);
}

#[test]
fn manager_entry_requires_value_and_blnd_while_removal_uses_hysteresis() {
    entry_requires_value_and_blnd_while_removal_uses_hysteresis(true);
}

#[test]
fn reward_zone_entry_requires_value_and_blnd_while_removal_uses_hysteresis() {
    entry_requires_value_and_blnd_while_removal_uses_hysteresis(false);
}

fn missing_checkpoint_after_distribution_fails_closed(by_tokens: bool) {
    let mut fixture = Fixture::create(by_tokens);
    let first = fixture.pool(SCALAR_7, 0, ENTRY - SCALAR_7);
    fixture.add(first, None).unwrap();
    fixture.clock = ZoneClock { checkpoint: None, started: true };

    let second = fixture.pool(SCALAR_7, 0, ENTRY - SCALAR_7);
    assert!(fixture.add(second, None).is_err());

    fixture.pools[first as usize].usdc = balance(MAINTENANCE - 2 * SCALAR_7, 0);
    assert!(fixture.remove(first).is_err());
}

#[test]
fn manager_missing_checkpoint_after_distribution_fails_closed() {
    missing_checkpoint_after_distribution_fails_closed(true);
}

#[test]
fn reward_zone_missing_checkpoint_after_distribution_fails_closed() {
    missing_checkpoint_after_distribution_fails_closed(false);
}

#[test]
fn first_pre_activation_member_cannot_receive_prior_distribution_time() {
    let mut fixture = Fixture::create(true);
    let first = fixture.pool(SCALAR_7, 0, ENTRY - SCALAR_7);
    fixture.mark_distribution_started(NOW - CHECKPOINT_MAX_AGE_SECONDS - 1);

    assert!(fixture.add(first, None).is_err());
    fixture.mark_distribution_started(NOW);
    fixture.add(first, None).unwrap();
}

fn ordinary_removal_needs_no_checkpoint_before_distribution_begins(by_tokens: bool) {
    let mut fixture = Fixture::create(by_tokens);
    let pool = fixture.pool(SCALAR_7, 0, ENTRY - SCALAR_7);
    fixture.add(pool, None).unwrap();
    fixture.pools[pool as usize].usdc = balance(MAINTENANCE - 2 * SCALAR_7, 0);

    fixture.remove(pool).unwrap();
    assert_eq!(fixture.zone.len(), 0);
}

#[test]
fn manager_ordinary_removal_needs_no_checkpoint_before_distribution_begins() {
    ordinary_removal_needs_no_checkpoint_before_distribution_begins(true);
}

#[test]
fn reward_zone_ordinary_removal_needs_no_checkpoint_before_distribution_begins() {
    ordinary_removal_needs_no_checkpoint_before_distribution_begins(false);
}

fn zero_blnd_member_can_be_removed_without_a_fresh_checkpoint(by_tokens: bool) {
    let mut fixture = Fixture::create(by_tokens);
    let pool = fixture.pool(SCALAR_7, 0, ENTRY);
    fixture.add(pool, None).unwrap();
    fixture.pools[pool as usize].blnd_usdc = balance(SCALAR_7, SCALAR_7);
    fixture.mark_distribution_started(NOW - CHECKPOINT_MAX_AGE_SECONDS - 1);

    fixture.remove(pool).unwrap();
    assert_eq!(fixture.zone.len(), 0);
}

#[test]
fn manager_zero_blnd_member_can_be_removed_without_a_fresh_checkpoint() {
    zero_blnd_member_can_be_removed_without_a_fresh_checkpoint(true);
}

#[test]
fn reward_zone_zero_blnd_member_can_be_removed_without_a_fresh_checkpoint() {
    zero_blnd_member_can_be_removed_without_a_fresh_checkpoint(false);
}

#[test]
fn members_enter_once_and_leave_once() {
    let mut fixture = Fixture::create(false);
    let pool = fixture.pool(SCALAR_7, 0, ENTRY);
    assert_eq!(fixture.remove(pool), Err(BackstopError::InvalidRewardZoneEntry));
    assert_eq!(fixture.add(pool, None), Ok(None));
    assert_eq!(fixture.add(pool, None), Err(BackstopError::InvalidRewardZoneEntry));
    assert_eq!(members(&fixture.zone), vec![pool]);
    assert_eq!(fixture.zone.get(1), None);
}

#[test]
fn zones_know_their_limit_and_their_checkpoint() {
    let mut zone = RewardZone::new(&env());
    for pool in 0..u64::from(MAX_RZ_SIZE) {
        zone.push_back(pool);
    }
    assert_eq!(get_reward_zone(&zone), Ok(()));
    zone.push_back(100);
    assert_eq!(members(&zone).last(), Some(&100));
    assert_eq!(get_reward_zone(&zone), Err(BackstopError::OverflowError));
    let clock = ZoneClock { checkpoint: Some(7), started: false };
    assert_eq!(
        get_reward_zone_checkpoint(&clock),
        Some(RewardZoneCheckpoint { timestamp: 7 })
    );
    let clock = ZoneClock { checkpoint: Some(NOW + 1), started: true };
    assert_eq!(
        manager::require_distribute_run_recently(&clock, NOW),
        Err(BackstopError::DistributionCheckpointRequired)
    );
}

#[test]
fn members_leave_from_the_middle() {
    let mut fixture = Fixture::create(false);
    let pools: Vec<u64> = (0..3).map(|_| fixture.pool(SCALAR_7, 0, ENTRY)).collect();
    for pool in &pools {
        fixture.add(*pool, None).unwrap();
    }
    assert_eq!(members(&fixture.zone), vec![pools[2], pools[1], pools[0]]);
    fixture.pools[pools[1] as usize].blnd_usdc = balance(SCALAR_7, SCALAR_7);
    fixture.remove(pools[1]).unwrap();
    assert_eq!(members(&fixture.zone), vec![pools[2], pools[0]]);
}

#[test]
fn an_entry_records_the_active_tokens_of_the_pool() {
    for by_tokens in [false, true] {
        let mut fixture = Fixture::create(by_tokens);
        let pool = fixture.pool(40 * SCALAR_7, 10 * SCALAR_7, ENTRY);
        assert_eq!(fixture.add(pool, None), Ok(None));
        assert_eq!(
            fixture.pools[pool as usize].record,
            PoolOngoingEmissions { active_blnd_usdc: 30 * SCALAR_7, ..EMPTY }
        );

        let broken = fixture.pool(40 * SCALAR_7, 0, ENTRY);
        fixture.pools[broken as usize].record.accrued_pool = -1;
        fixture.mark_distribution_started(NOW);
        assert_eq!(fixture.add(broken, None), Err(BackstopError::InvalidEmissionValue));
        assert_eq!(members(&fixture.zone), vec![pool]);
        assert_eq!(fixture.pools[broken as usize].record.active_blnd_usdc, 0);
    }
}
