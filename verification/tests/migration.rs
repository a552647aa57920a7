//! The handover of emissions from an incumbent backstop.

use std::collections::HashMap;

use backstop::backstop::deposit::execute_deposit;
use backstop::backstop::pool::{BackstopAsset as Asset, BackstopTier, PoolBalance};
use backstop::backstop::tier::BackstopTier as EmissionTier;
use backstop::backstop::user::UserBalance;
use backstop::backstop::withdrawal::{execute_queue_withdrawal, execute_withdraw, QueueLengths};
use backstop::constants::{MAX_BACKFILLED_EMISSIONS, Q4W_LOCK_TIME, SCALAR_7};
use backstop::dependencies::emitter::Swap;
use backstop::dependencies::pool_factory::{BackstopAsset, BackstopTierConfig};
use backstop::emissions::claim::{
    execute_claim, preview_claim, settle_claim, ClaimPosition, DepositReport,
};
use backstop::emissions::manager::{
    distribute, gulp_emissions, DistributeStep, EmissionReport, OngoingReading, PoolStreams,
};
use backstop::emissions::tier_accounting::{
    prepare_pool_weight_change, refresh_pool_ongoing_assets, LpCompositions, PoolWeights,
    WeightStreams, ZoneMember,
};
use backstop::errors::BackstopError;
use backstop::migration::{
    attest_queue, check_drop, drop, record_backfill_distribution, require_active,
    require_backfill_funded, require_valid_queue, require_weight_mutation_allowed, EmitterView,
    MigrationRecord, MigrationStatus, ACTIVATION_GRACE_SECONDS, QUEUE_ATTESTATION_WINDOW_SECONDS,
};
use backstop::storage::{
    BackstopEmissionData, OngoingEmissionState, PoolOngoingEmissions, UserEmissionData, ZoneClock,
};
use soroban_sdk::testutils::EnvTestConfig;
use soroban_sdk::Env;

const DAY_IN_SECONDS: u64 = 24 * 60 * 60;
const QUEUE_SECONDS: u64 = 31 * DAY_IN_SECONDS;
const MAX_BACKFILL_SECONDS: u64 = (MAX_BACKFILLED_EMISSIONS / SCALAR_7) as u64;
const BACKSTOP: u64 = 1;
const INCUMBENT: u64 = 2;
const BLNT_XLM: u64 = 3;
const POOL: u64 = 4;
const USER: u64 = 5;

/// An emitter with one queued replacement at most.
struct Emitter {
    backstop: u64,
    last_distro: HashMap<u64, u64>,
    queued: Option<Swap>,
}

impl Emitter {
    fn paying(backstop: u64, now: u64) -> Self {
        Emitter { backstop, last_distro: HashMap::from([(backstop, now)]), queued: None }
    }

    fn queue_swap_backstop(&mut self, token: u64, now: u64) {
        self.queued = Some(Swap {
            new_backstop: BACKSTOP,
            new_backstop_token: token,
            unlock_time: now + QUEUE_SECONDS,
        });
    }

    fn swap_backstop(&mut self, now: u64) {
        let swap = self.queued.take().unwrap();
        assert!(now >= swap.unlock_time);
        self.backstop = swap.new_backstop;
        self.last_distro.insert(swap.new_backstop, now);
    }

    fn last(&self) -> u64 {
        *self.last_distro.get(&BACKSTOP).unwrap_or(&0)
    }
}

/// One tier of the pool with the user's position in it.
struct Tier {
    balance: PoolBalance,
    user: UserBalance,
    emission: Option<BackstopEmissionData>,
    record: Option<UserEmissionData>,
}

impl Tier {
    fn new() -> Self {
        Tier {
            balance: PoolBalance { shares: 0, tokens: 0, q4w: 0 },
            user: UserBalance { shares: 0, q4w: vec![] },
            emission: None,
            record: None,
        }
    }
}

struct Fixture {
    e: Env,
    now: u64,
    emitter: Emitter,
    record: MigrationRecord,
    state: OngoingEmissionState,
    clock: ZoneClock,
    funded: Option<i128>,
    drop_list: Vec<(u64, i128)>,
    in_zone: bool,
    pool: PoolOngoingEmissions,
    last_gulp: Option<u64>,
    tiers: [Tier; 3],
    balances: HashMap<u64, i128>,
    lp: i128,
    binding_verified: bool,
}

fn config() -> Vec<BackstopTierConfig> {
    vec![
        BackstopTierConfig { asset: BackstopAsset::BlndXlm, take_rate_weight: 4 },
        BackstopTierConfig { asset: BackstopAsset::BlndUsdc, take_rate_weight: 3 },
        BackstopTierConfig { asset: BackstopAsset::Usdc, take_rate_weight: 2 },
    ]
}

fn position_of(tier: BackstopTier) -> usize {
    match tier {
        BackstopTier::FirstLoss => 0,
        BackstopTier::SecondLoss => 1,
        BackstopTier::ThirdLoss => 2,
    }
}

fn emission_tier(tier: BackstopTier) -> EmissionTier {
    match tier {
        BackstopTier::FirstLoss => EmissionTier::BlndXlm,
        BackstopTier::SecondLoss => EmissionTier::BlndUsdc,
        BackstopTier::ThirdLoss => EmissionTier::Usdc,
    }
}

impl Fixture {
    fn create() -> Self {
        let mut fixture = Fixture {
            e: Env::new_with_config(EnvTestConfig { capture_snapshot_at_drop: false }),
            now: 1_000,
            emitter: Emitter::paying(INCUMBENT, 1_000),
            record: MigrationRecord {
                migration_epoch_start: None,
                verified_queue_unlock: None,
                activated_at: None,
                backfill_end: None,
                scheduled_backfill: 0,
            },
            state: OngoingEmissionState {
                last_distribution: None,
                ..OngoingEmissionState::empty_at(0)
            },
            clock: ZoneClock { checkpoint: None, started: false },
            funded: None,
            drop_list: vec![],
            in_zone: false,
            pool: PoolOngoingEmissions {
                accrued_pool: 0,
                active_blnd_usdc: 0,
                active_blnd_xlm: 0,
                backstop_tier_carry: 0,
                pending_blnd_usdc: 0,
                pending_blnd_xlm: 0,
            },
            last_gulp: None,
            tiers: [Tier::new(), Tier::new(), Tier::new()],
            balances: HashMap::new(),
            lp: 20 * SCALAR_7,
            binding_verified: false,
        };
        fixture.deposit(BackstopTier::SecondLoss, 20 * SCALAR_7).unwrap();
        fixture.deposit(BackstopTier::FirstLoss, 5 * SCALAR_7).unwrap();
        fixture.in_zone = true;
        let (usdc, xlm) = (Some(fixture.tiers[1].balance), Some(fixture.tiers[0].balance));
        refresh_pool_ongoing_assets(&mut fixture.pool, &usdc, &xlm).unwrap();
        fixture
    }

    fn balance(&self, address: u64) -> i128 {
        *self.balances.get(&address).unwrap_or(&0)
    }

    fn mint(&mut self, address: u64, amount: i128) {
        *self.balances.entry(address).or_insert(0) += amount;
    }

    fn change(&self, tier: BackstopTier) -> Result<bool, BackstopError> {
        prepare_pool_weight_change(
            &config(),
            tier,
            self.record.is_active(),
            self.emitter.backstop == BACKSTOP,
        )
    }

    fn weights(&self, tier: BackstopTier) -> PoolWeights {
        PoolWeights {
            asset: [Asset::BlndXlm, Asset::BlndUsdc, Asset::Usdc][position_of(tier)],
            state: self.pool,
            blnd_usdc: Some(self.tiers[1].balance),
            blnd_xlm: Some(self.tiers[0].balance),
        }
    }

    fn deposit(&mut self, tier: BackstopTier, amount: i128) -> Result<i128, BackstopError> {
        let change = self.change(tier);
        let mut weights = self.weights(tier);
        let t = &mut self.tiers[position_of(tier)];
        let mut streams = WeightStreams { emission: t.emission, user: t.record };
        let shares = execute_deposit(
            &self.e,
            &mut t.balance,
            &mut t.user,
            &mut streams,
            &mut weights,
            USER,
            POOL,
            BACKSTOP,
            Ok(()),
            change,
            amount,
            self.now,
        )?;
        t.emission = streams.emission;
        t.record = streams.user;
        self.pool = weights.state;
        Ok(shares)
    }

    fn queue_withdrawal(&mut self, tier: BackstopTier, amount: i128) {
        let change = self.change(tier);
        let mut weights = self.weights(tier);
        let t = &mut self.tiers[position_of(tier)];
        let mut streams = WeightStreams { emission: t.emission, user: t.record };
        let lengths = QueueLengths { blnd_usdc: 0, blnd_xlm: 0, usdc: 0 };
        execute_queue_withdrawal(
            &self.e,
            &mut t.balance,
            &mut t.user,
            &mut streams,
            &mut weights,
            &lengths,
            change,
            amount,
            self.now,
        )
        .unwrap();
        t.emission = streams.emission;
        t.record = streams.user;
        self.pool = weights.state;
    }

    fn withdraw(&mut self, tier: BackstopTier, amount: i128) -> i128 {
        let change = self.change(tier);
        let mut weights = self.weights(tier);
        let t = &mut self.tiers[position_of(tier)];
        let mut streams = WeightStreams { emission: t.emission, user: t.record };
        let tokens = execute_withdraw(
            &self.e,
            &mut t.balance,
            &mut t.user,
            &mut streams,
            &mut weights,
            false,
            change,
            amount,
            self.now,
        )
        .unwrap();
        t.emission = streams.emission;
        t.record = streams.user;
        self.pool = weights.state;
        tokens
    }

    fn members(&self) -> Vec<ZoneMember> {
        if self.in_zone {
            vec![ZoneMember { pool: POOL, state: self.pool }]
        } else {
            vec![]
        }
    }

    fn emitter_view(&self) -> EmitterView {
        EmitterView {
            is_current_backstop: self.emitter.backstop == BACKSTOP,
            queued: self.emitter.queued,
            last_distribution: self.emitter.last(),
        }
    }

    /// Have the emitter distribute.
    fn emission(&mut self) -> OngoingReading {
        let before = self.emitter.last();
        let emitted = (self.now - before) as i128 * SCALAR_7;
        self.emitter.last_distro.insert(BACKSTOP, self.now);
        let balance_before = self.balance(BACKSTOP);
        self.mint(BACKSTOP, emitted);
        OngoingReading {
            lp: LpCompositions {
                blnd_usdc_supply: 100 * SCALAR_7,
                blnd_usdc_reserve: 1_000 * SCALAR_7,
                blnd_xlm_supply: 100 * SCALAR_7,
                blnd_xlm_reserve: 1_000 * SCALAR_7,
            },
            report: EmissionReport {
                is_current_backstop: true,
                checkpoint_before: before,
                checkpoint: self.now,
                emitted,
                balance_before: if self.binding_verified { None } else { Some(balance_before) },
                balance_after: self.balance(BACKSTOP),
            },
        }
    }

    fn distribute(&mut self) -> Result<i128, BackstopError> {
        let members = self.members();
        let (mut view, mut reading) = (None, None);
        loop {
            let step = distribute(
                &self.e,
                &mut self.record,
                &mut self.state,
                &mut self.clock,
                &view,
                &reading,
                BACKSTOP,
                BLNT_XLM,
                &members,
                self.now,
            )?;
            match step {
                DistributeStep::ReadEmitter => view = Some(self.emitter_view()),
                DistributeStep::CallEmitter => reading = Some(self.emission()),
                DistributeStep::Done(allocation) => {
                    if reading.is_some() {
                        self.binding_verified = true;
                    }
                    for member in &allocation.members {
                        self.pool = member.state;
                    }
                    return Ok(allocation.distributed);
                }
            }
        }
    }

    fn gulp(&mut self) -> i128 {
        let mut streams = PoolStreams {
            state: self.pool,
            blnd_usdc: self.tiers[1].emission,
            blnd_xlm: self.tiers[0].emission,
            last_gulp: self.last_gulp,
        };
        let result = gulp_emissions(
            &self.e,
            true,
            &mut streams,
            &self.tiers[1].balance,
            &self.tiers[0].balance,
            0,
            1,
            1,
            self.now,
        )
        .unwrap();
        self.pool = streams.state;
        self.tiers[1].emission = streams.blnd_usdc;
        self.tiers[0].emission = streams.blnd_xlm;
        self.last_gulp = streams.last_gulp;
        result.pool
    }

    fn positions(&self, tier: BackstopTier) -> Vec<ClaimPosition> {
        let t = &self.tiers[position_of(tier)];
        vec![ClaimPosition {
            pool: POOL,
            unregistered: None,
            standstill: self.change(tier).err(),
            emission: t.emission,
            user: t.record,
            pool_balance: t.balance,
            user_shares: t.user.shares,
            weights: self.weights(tier),
        }]
    }

    fn claimable(&self, tier: BackstopTier) -> i128 {
        preview_claim(&self.e, emission_tier(tier), &self.positions(tier), self.now).unwrap()
    }

    fn claim(&mut self, tier: BackstopTier) -> Result<i128, BackstopError> {
        let funding = require_backfill_funded(
            self.record.is_active(),
            self.record.scheduled_backfill,
            self.funded,
        );
        let positions = self.positions(tier);
        let claims = execute_claim(
            &self.e,
            emission_tier(tier),
            funding,
            &positions,
            0,
            &mut self.state,
            self.now,
        )?;
        let lp_amount = claims.blnd_amount / 13;
        let held = self.balance(BACKSTOP);
        let report = DepositReport {
            blnd_before: held,
            blnd_after: held - claims.blnd_amount,
            lp_before: self.lp,
            lp_after: self.lp + lp_amount,
            lp_amount,
        };
        let allocations = settle_claim(&self.e, &claims, &report)?;
        self.mint(BACKSTOP, -claims.blnd_amount);
        self.lp += lp_amount;
        let t = &mut self.tiers[position_of(tier)];
        t.emission = claims.claims[0].emission;
        t.record = claims.claims[0].user;
        t.balance = allocations[0].pool_balance;
        t.user.shares = allocations[0].user_shares;
        self.pool = allocations[0].weights.state;
        Ok(lp_amount)
    }

    fn drop(&mut self) -> Result<(), BackstopError> {
        let plan = drop(
            &mut self.funded,
            self.record.is_active(),
            self.record.scheduled_backfill,
            &self.drop_list,
            BACKSTOP,
        )?;
        let before = self.balance(BACKSTOP);
        for (recipient, amount) in plan.recipients.clone() {
            self.mint(recipient, amount);
        }
        check_drop(&plan, before, self.balance(BACKSTOP))?;
        self.binding_verified = true;
        Ok(())
    }

    fn unlock(&self) -> u64 {
        self.emitter.queued.unwrap().unlock_time
    }

    fn queue(&mut self) -> u64 {
        if self.record.migration_epoch_start.is_none() {
            assert_eq!(self.distribute(), Ok(0));
        }
        let epoch_start = self.record.migration_epoch_start.unwrap();
        self.emitter.queue_swap_backstop(BLNT_XLM, self.now);
        assert_eq!(self.distribute(), Ok(0));
        epoch_start
    }

    fn swap_and_sync(&mut self) {
        self.now = self.unlock();
        self.distribute().unwrap();
        self.emitter.swap_backstop(self.now);
        assert_eq!(self.distribute(), Ok(0));
    }
}

#[test]
fn fresh_emitter_activates_without_a_queued_swap_or_backfill() {
    let mut fixture = Fixture::create();
    fixture.emitter = Emitter::paying(BACKSTOP, 1_000);

    assert_eq!(fixture.distribute(), Ok(0));
    let state = fixture.record;
    assert_eq!(state.status(), MigrationStatus::Active);
    assert_eq!(state.migration_epoch_start, None);
    assert_eq!(state.verified_queue_unlock, None);
    assert_eq!(state.scheduled_backfill, 0);
    assert_eq!(state.backfill_end, Some(1_000));

    fixture.now = 4_600;
    assert_eq!(fixture.distribute(), Ok(3_600 * SCALAR_7));
}

#[test]
fn backfill_uses_ordinary_streams_and_exact_funding() {
    let mut fixture = Fixture::create();
    let discretionary_recipient = 77;
    let discretionary_amount = 1_000 * SCALAR_7;
    fixture.drop_list = vec![(discretionary_recipient, discretionary_amount)];
    assert_eq!(fixture.queue(), 1_000);

    fixture.now = 1_010;
    assert_eq!(fixture.distribute(), Ok(10 * SCALAR_7));
    assert!(fixture.pool.pending_blnd_usdc > 0);
    assert_eq!(fixture.pool.pending_blnd_xlm, 0);
    assert_eq!(fixture.claimable(BackstopTier::SecondLoss), 0);
    assert_eq!(fixture.claimable(BackstopTier::FirstLoss), 0);
    assert_eq!(
        fixture.claim(BackstopTier::SecondLoss),
        Err(BackstopError::MigrationNotActive)
    );
    assert_eq!(fixture.gulp(), 3 * SCALAR_7);

    fixture.swap_and_sync();
    let scheduled = fixture.record.scheduled_backfill;
    assert_eq!(scheduled, QUEUE_SECONDS as i128 * SCALAR_7);
    assert_eq!(fixture.funded, None);
    fixture.now = fixture.record.activated_at.unwrap() + 10;
    assert_eq!(fixture.distribute(), Ok(10 * SCALAR_7));
    assert_eq!(fixture.claimable(BackstopTier::FirstLoss), 0);
    assert_eq!(
        fixture.claim(BackstopTier::SecondLoss),
        Err(BackstopError::BackfillNotFunded)
    );
    assert!(fixture.gulp() > 0);

    fixture.drop().unwrap();
    assert_eq!(fixture.funded, Some(scheduled));
    assert!(fixture.binding_verified);
    assert_eq!(fixture.balance(BACKSTOP), scheduled + 10 * SCALAR_7);
    assert_eq!(fixture.balance(discretionary_recipient), discretionary_amount);
    assert_eq!(fixture.drop(), Err(BackstopError::BackfillAlreadyFunded));
    assert!(fixture.claim(BackstopTier::SecondLoss).unwrap() > 0);
    assert!(fixture.lp > 20 * SCALAR_7);
}

#[test]
fn backfill_distribution_samples_current_weight_like_v2() {
    let mut fixture = Fixture::create();
    assert_eq!(fixture.distribute(), Ok(0));
    fixture.now = 1_010;

    assert_eq!(fixture.deposit(BackstopTier::SecondLoss, SCALAR_7), Ok(SCALAR_7));
    assert_eq!(fixture.distribute(), Ok(10 * SCALAR_7));
    assert_eq!(fixture.claimable(BackstopTier::SecondLoss), 0);
}

#[test]
fn discretionary_drop_does_not_require_positive_backfill() {
    let mut fixture = Fixture::create();
    let recipient = 77;
    let amount = 1_000 * SCALAR_7;
    fixture.in_zone = false;
    fixture.drop_list = vec![(recipient, amount)];

    fixture.queue();
    fixture.swap_and_sync();
    assert_eq!(fixture.record.scheduled_backfill, 0);

    fixture.drop().unwrap();
    assert_eq!(fixture.funded, Some(0));
    assert_eq!(fixture.balance(recipient), amount);
}

#[test]
fn withdrawal_stops_future_weight_without_forfeiting_accrued_backfill() {
    let mut fixture = Fixture::create();
    fixture.queue();
    fixture.now = 1_010;
    fixture.distribute().unwrap();
    assert_eq!(fixture.gulp(), 3 * SCALAR_7);
    fixture.now = 1_010 + DAY_IN_SECONDS;
    fixture.distribute().unwrap();
    let accrued_before_queue = fixture.claimable(BackstopTier::SecondLoss);
    fixture.queue_withdrawal(BackstopTier::SecondLoss, 20 * SCALAR_7);
    fixture.now = 1_010 + DAY_IN_SECONDS + Q4W_LOCK_TIME;
    fixture.distribute().unwrap();
    assert_eq!(fixture.withdraw(BackstopTier::SecondLoss, 20 * SCALAR_7), 20 * SCALAR_7);
    assert_eq!(fixture.tiers[1].user.shares, 0);

    fixture.swap_and_sync();
    assert_eq!(
        fixture.record.scheduled_backfill,
        i128::from(10 + DAY_IN_SECONDS) * SCALAR_7
    );
    fixture.drop().unwrap();
    assert_eq!(fixture.claimable(BackstopTier::SecondLoss), accrued_before_queue);
    assert!(fixture.claim(BackstopTier::SecondLoss).unwrap() > 0);
    assert!(fixture.tiers[1].user.shares > 0);
}

#[test]
fn direct_swap_fails_closed_until_distribute_activates() {
    let mut fixture = Fixture::create();
    fixture.queue();
    let unlock = fixture.unlock();
    fixture.now = unlock - QUEUE_ATTESTATION_WINDOW_SECONDS;
    fixture.distribute().unwrap();
    assert_eq!(fixture.record.verified_queue_unlock, Some(unlock));
    fixture.now = unlock;
    fixture.emitter.swap_backstop(fixture.now);

    let refused = Err(BackstopError::MigrationNotActive);
    assert_eq!(fixture.deposit(BackstopTier::FirstLoss, SCALAR_7), refused);
    assert_eq!(fixture.deposit(BackstopTier::SecondLoss, SCALAR_7), refused);
    assert_eq!(fixture.deposit(BackstopTier::ThirdLoss, SCALAR_7), Ok(SCALAR_7));

    assert_eq!(fixture.distribute(), Ok(0));
    assert_eq!(fixture.record.status(), MigrationStatus::Active);
    assert_eq!(
        fixture.record.backfill_end,
        Some(unlock - QUEUE_ATTESTATION_WINDOW_SECONDS)
    );
    assert_eq!(fixture.deposit(BackstopTier::FirstLoss, SCALAR_7), Ok(SCALAR_7));
}

#[test]
fn observed_queue_must_target_the_candidate_and_blnt_xlm() {
    let mut fixture = Fixture::create();
    assert_eq!(fixture.distribute(), Ok(0));
    fixture.emitter.queue_swap_backstop(99, fixture.now);
    assert_eq!(fixture.distribute(), Err(BackstopError::InvalidQueuedSwap));
    fixture.now = fixture.unlock();
    fixture.emitter.swap_backstop(fixture.now);
    assert_eq!(fixture.distribute(), Err(BackstopError::MigrationNotPrepared));
    assert_eq!(fixture.record.status(), MigrationStatus::Open);
}

#[test]
fn activation_requires_the_attested_queue_grace_period() {
    let mut fixture = Fixture::create();
    fixture.queue();
    let unlock = fixture.unlock();
    fixture.now = unlock - QUEUE_ATTESTATION_WINDOW_SECONDS;
    fixture.distribute().unwrap();
    fixture.now = unlock;
    fixture.emitter.swap_backstop(fixture.now);
    fixture.now = unlock + ACTIVATION_GRACE_SECONDS + 1;

    assert_eq!(fixture.distribute(), Err(BackstopError::SyncWindowExpired));
    assert_eq!(fixture.record.status(), MigrationStatus::Open);
}

#[test]
fn expired_live_queue_clears_its_attestation_before_swap() {
    let mut fixture = Fixture::create();
    fixture.queue();
    let unlock = fixture.unlock();
    fixture.now = unlock;
    fixture.distribute().unwrap();
    assert_eq!(fixture.record.verified_queue_unlock, Some(unlock));

    fixture.now = unlock + ACTIVATION_GRACE_SECONDS + 1;
    fixture.distribute().unwrap();
    assert_eq!(fixture.record.verified_queue_unlock, None);
}

#[test]
fn replacement_queue_does_not_reset_or_pause_the_backfill_clock() {
    let mut fixture = Fixture::create();
    let epoch_start = fixture.queue();
    let original_unlock = fixture.unlock();

    fixture.now = original_unlock;
    fixture.emitter.queued = None;
    fixture.emitter.queue_swap_backstop(BLNT_XLM, fixture.now);
    let replacement_unlock = fixture.unlock();
    fixture.now = original_unlock + 10 * DAY_IN_SECONDS;
    let backfill = (original_unlock + 10 * DAY_IN_SECONDS - epoch_start) as i128 * SCALAR_7;
    assert_eq!(fixture.distribute(), Ok(backfill));
    assert_eq!(fixture.record.scheduled_backfill, backfill);

    fixture.now = replacement_unlock;
    fixture.swap_and_sync();
    assert_eq!(fixture.record.backfill_end, Some(replacement_unlock));
}

#[test]
fn delayed_queue_reaches_the_full_backfill_cap() {
    let mut fixture = Fixture::create();
    let epoch_start = fixture.now;
    assert_eq!(fixture.distribute(), Ok(0));

    fixture.now = epoch_start + MAX_BACKFILL_SECONDS - QUEUE_SECONDS;
    assert_eq!(
        fixture.distribute(),
        Ok((MAX_BACKFILL_SECONDS - QUEUE_SECONDS) as i128 * SCALAR_7)
    );
    fixture.emitter.queue_swap_backstop(BLNT_XLM, fixture.now);
    assert_eq!(fixture.distribute(), Ok(0));

    fixture.swap_and_sync();
    assert_eq!(fixture.record.scheduled_backfill, MAX_BACKFILLED_EMISSIONS);
    assert_eq!(fixture.record.backfill_end, Some(epoch_start + MAX_BACKFILL_SECONDS));
    fixture.drop().unwrap();
    assert_eq!(fixture.funded, Some(MAX_BACKFILLED_EMISSIONS));
}

#[test]
fn pre_swap_lifecycle_has_no_local_deadline_and_remains_capped() {
    let mut fixture = Fixture::create();
    fixture.now = 1_000 + QUEUE_SECONDS + 1;
    assert_eq!(fixture.distribute(), Ok(0));
    let epoch_start = fixture.record.migration_epoch_start.unwrap();

    fixture.now = epoch_start + MAX_BACKFILL_SECONDS + DAY_IN_SECONDS;
    assert_eq!(fixture.distribute(), Ok(MAX_BACKFILLED_EMISSIONS));
    fixture.emitter.queue_swap_backstop(BLNT_XLM, fixture.now);
    assert_eq!(fixture.distribute(), Ok(0));
    assert_eq!(fixture.record.scheduled_backfill, MAX_BACKFILLED_EMISSIONS);
}

#[test]
fn the_migration_has_three_states() {
    let pending = Fixture::create().record;
    assert_eq!(pending.status(), MigrationStatus::Pending);
    assert_eq!(require_active(false), Err(BackstopError::MigrationNotActive));
    assert_eq!(require_active(true), Ok(()));
    assert_eq!(require_weight_mutation_allowed(false, false), Ok(()));
    assert_eq!(
        require_weight_mutation_allowed(false, true),
        Err(BackstopError::MigrationNotActive)
    );
    assert_eq!(require_weight_mutation_allowed(true, true), Ok(()));
}

#[test]
fn backfill_is_capped_and_funded_exactly() {
    let mut scheduled = MAX_BACKFILLED_EMISSIONS - 1;
    assert_eq!(
        record_backfill_distribution(&mut scheduled, 2),
        Err(BackstopError::MaxBackfillEmissions)
    );
    assert_eq!(
        record_backfill_distribution(&mut scheduled, -1),
        Err(BackstopError::InvalidEmissionValue)
    );
    assert_eq!(
        record_backfill_distribution(&mut scheduled, i128::MAX),
        Err(BackstopError::OverflowError)
    );
    assert_eq!(record_backfill_distribution(&mut scheduled, 1), Ok(()));
    assert_eq!(scheduled, MAX_BACKFILLED_EMISSIONS);
    assert_eq!(require_backfill_funded(true, 5, Some(5)), Ok(()));
    assert_eq!(require_backfill_funded(true, 0, None), Ok(()));
    assert_eq!(
        require_backfill_funded(true, 5, Some(4)),
        Err(BackstopError::BackfillNotFunded)
    );
}

#[test]
fn queues_are_attested_around_their_unlock() {
    let week = QUEUE_ATTESTATION_WINDOW_SECONDS;
    let swap = |unlock_time| Swap {
        new_backstop: BACKSTOP,
        new_backstop_token: BLNT_XLM,
        unlock_time,
    };
    assert_eq!(attest_queue(&swap(2 * week), week - 1), Ok(None));
    assert_eq!(attest_queue(&swap(2 * week), week), Ok(Some(2 * week)));
    assert_eq!(attest_queue(&swap(2 * week), 3 * week), Ok(Some(2 * week)));
    assert_eq!(attest_queue(&swap(2 * week), 3 * week + 1), Ok(None));
    assert_eq!(attest_queue(&swap(5), 0), Ok(Some(5)));
    assert_eq!(attest_queue(&swap(u64::MAX), 0), Err(BackstopError::OverflowError));
    assert_eq!(require_valid_queue(&swap(1), BACKSTOP, BLNT_XLM), Ok(()));
    assert_eq!(
        require_valid_queue(&swap(1), 9, BLNT_XLM),
        Err(BackstopError::InvalidQueuedSwap)
    );
}

#[test]
fn drops_pay_the_list_and_the_backfill() {
    let list = vec![(8, 10), (BACKSTOP, 5)];
    let mut funded = None;
    assert_eq!(
        drop(&mut funded, false, 7, &list, BACKSTOP).map(|_| ()),
        Err(BackstopError::MigrationNotActive)
    );
    assert_eq!(
        drop(&mut funded, true, -1, &list, BACKSTOP).map(|_| ()),
        Err(BackstopError::InvalidBackfillFunding)
    );
    assert_eq!(
        drop(&mut funded, true, 1, &vec![(BACKSTOP, i128::MAX)], BACKSTOP).map(|_| ()),
        Err(BackstopError::OverflowError)
    );
    let plan = drop(&mut funded, true, 7, &list, BACKSTOP).unwrap();
    assert_eq!(plan.recipients, vec![(8, 10), (BACKSTOP, 5), (BACKSTOP, 7)]);
    assert_eq!(plan.expected_delta, 12);
    assert_eq!(check_drop(&plan, 1, 13), Ok(()));
    assert_eq!(check_drop(&plan, 1, 12), Err(BackstopError::InvalidBackfillFunding));
    assert_eq!(check_drop(&plan, i128::MIN, 12), Err(BackstopError::OverflowError));
}

#[test]
fn previews_go_on_while_weights_stand_still() {
    let mut fixture = Fixture::create();
    fixture.queue();
    let unlock = fixture.unlock();
    fixture.now = unlock - QUEUE_ATTESTATION_WINDOW_SECONDS;
    fixture.distribute().unwrap();
    fixture.gulp();
    fixture.now = unlock;
    let before = fixture.claimable(BackstopTier::SecondLoss);
    assert!(before > 0);
    fixture.emitter.swap_backstop(fixture.now);

    let refused = BackstopError::MigrationNotActive;
    let positions = fixture.positions(BackstopTier::SecondLoss);
    assert_eq!(positions[0].standstill, Some(refused));
    assert_eq!(fixture.claimable(BackstopTier::SecondLoss), before);
    let claimed = execute_claim(
        &fixture.e,
        EmissionTier::BlndUsdc,
        Ok(()),
        &positions,
        0,
        &mut fixture.state,
        fixture.now,
    );
    assert_eq!(claimed.map(|claims| claims.blnd_amount), Err(refused));

    let unknown = ClaimPosition { unregistered: Some(BackstopError::NotPool), ..positions[0] };
    assert_eq!(
        preview_claim(&fixture.e, EmissionTier::BlndUsdc, &vec![unknown], fixture.now),
        Err(BackstopError::NotPool)
    );
}
