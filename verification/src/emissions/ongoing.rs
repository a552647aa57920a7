//! Distribution of the fixed three-tier layout, with its full account.

use soroban_sdk::Env;
use vstd::prelude::*;

use super::claim::{
    execute_claim, preview_claim, spec_execute_claim, spec_preview, ClaimPosition, Claims,
};
use super::manager;
use super::manager::{
    distributes_ongoing, distributes_pending, spec_gulp, DistributeStep, GulpResult,
    OngoingReading, PoolStreams,
};
use super::reward_zone::recent;
use super::tier_accounting;
use super::tier_accounting::{
    allocation_fits, backstop_part, members_after, no_compositions, pool_part,
    refresh_pool_ongoing_assets, share_sum, spec_at_checkpoint, spec_backfill_plan,
    spec_check_state, spec_collect_weights, spec_refreshed, spec_state_after,
    validate_ongoing_emission_state, Allocation, BackfillPlan, Baseline, ZoneMember,
};
use crate::backstop::pool::PoolBalance;
use crate::backstop::tier::BackstopTier;
use crate::errors::BackstopError;
use crate::math::fits_i128;
use crate::migration::{
    require_weight_mutation_allowed, spec_weight_mutation_gate, EmitterView, MigrationRecord,
};
use crate::storage::{OngoingEmissionState, PoolOngoingEmissions, ZoneClock};
use crate::Address;

verus! {

/// The greatest age of a distribution checkpoint that a weight can change under.
pub const WEIGHT_CHANGE_CHECKPOINT_MAX_AGE_SECONDS: u64 = 5;

/// Result of one completed permissionless BLND distribution checkpoint.
#[derive(Clone, Copy, Debug, PartialEq, Eq, Structural)]
pub struct OngoingDistribution {
    pub backstop_allocated: i128,
    pub backstop_carry: i128,
    pub checkpoint: u64,
    pub eligible_blnd: i128,
    pub pool_allocated: i128,
    pub pool_carry: i128,
    pub distributed: i128,
    pub split_carry: i128,
}

/// Whether `account` is that of an allocation that left `state`.
pub open spec fn accounts_for(
    account: OngoingDistribution,
    state: OngoingEmissionState,
    checkpoint: u64,
    distributed: int,
    eligible_blnd: int,
    backstop_allocated: int,
    pool_allocated: int,
) -> bool {
    &&& account.backstop_allocated == backstop_allocated
    &&& account.backstop_carry == state.backstop_carry
    &&& account.checkpoint == checkpoint
    &&& account.eligible_blnd == eligible_blnd
    &&& account.pool_allocated == pool_allocated
    &&& account.pool_carry == state.pool_carry
    &&& account.distributed == distributed
    &&& account.split_carry == state.split_carry
}

fn account_of(
    allocation: &Allocation,
    state: &OngoingEmissionState,
    checkpoint: u64,
) -> (r: OngoingDistribution)
    ensures
        accounts_for(
            r,
            *state,
            checkpoint,
            allocation.distributed as int,
            allocation.eligible_blnd as int,
            allocation.backstop_allocated as int,
            allocation.pool_allocated as int,
        ),
{
    OngoingDistribution {
        backstop_allocated: allocation.backstop_allocated,
        backstop_carry: state.backstop_carry,
        checkpoint,
        eligible_blnd: allocation.eligible_blnd,
        pool_allocated: allocation.pool_allocated,
        pool_carry: state.pool_carry,
        distributed: allocation.distributed,
        split_carry: state.split_carry,
    }
}

/// The next step of a distribution.
#[derive(Debug)]
pub enum OngoingStep {
    /// Read whom the emitter pays and what replacement is queued.
    ReadEmitter,
    /// Read the composition of the LP tokens and have the emitter distribute.
    CallEmitter,
    /// Distributed, with the pools' emissions after it.
    Done(OngoingDistribution, Vec<ZoneMember>),
}

/// The allocation that an account and the pools' emissions after it tell of.
pub open spec fn allocation_of(account: OngoingDistribution, after: Vec<ZoneMember>) -> Allocation {
    Allocation {
        distributed: account.distributed,
        eligible_blnd: account.eligible_blnd,
        backstop_allocated: account.backstop_allocated,
        pool_allocated: account.pool_allocated,
        members: after,
    }
}

/// What a finished distribution came to.
pub open spec fn spec_done(r: Result<OngoingStep, BackstopError>) -> Result<
    Allocation,
    BackstopError,
> {
    match r {
        Ok(step) => Ok(allocation_of(step->Done_0, step->Done_1)),
        Err(error) => Err(error),
    }
}

/// Distribute over the reward zone: pending emissions until the migration is active,
/// ongoing emissions from then on. What one of the two needs is asked for where it is
/// not given, with nothing changed. A pool that is listed again builds on what it was
/// left. The account tells of the allocation, the carries and
/// the checkpoint that it leaves.
pub fn distribute(
    e: &Env,
    record: &mut MigrationRecord,
    state: &mut OngoingEmissionState,
    clock: &mut ZoneClock,
    emitter: &Option<EmitterView>,
    ongoing: &Option<OngoingReading>,
    candidate: Address,
    blnt_xlm_token: Address,
    members: &Vec<ZoneMember>,
    now: u64,
) -> (r: Result<OngoingStep, BackstopError>)
    requires
        old(state).conserves(),
        !old(record).spec_is_active() && emitter is Some ==> old(state).valid(),
        old(record).spec_is_active() && ongoing is Some ==> old(state).last_distribution is Some,
    ensures
        r is Err || !(r->Ok_0 is Done) ==> {
            &&& *final(record) == *old(record)
            &&& *final(state) == *old(state)
            &&& *final(clock) == *old(clock)
        },
        r matches Ok(OngoingStep::Done(account, _)) ==> {
            &&& final(state).last_distribution == Some(account.checkpoint)
            &&& final(state).backstop_carry == account.backstop_carry
            &&& final(state).pool_carry == account.pool_carry
            &&& final(state).split_carry == account.split_carry
        },
        old(record).spec_is_active() ==> *final(record) == *old(record) && match *ongoing {
            None => r matches Ok(OngoingStep::CallEmitter),
            Some(reading) => {
                &&& r is Ok ==> r->Ok_0 is Done
                &&& distributes_ongoing(
                    *old(state),
                    *old(clock),
                    members@,
                    reading.lp,
                    reading.report,
                    now,
                    *final(state),
                    *final(clock),
                    Baseline::Current,
                    spec_done(r),
                )
            },
        },
        !old(record).spec_is_active() ==> match *emitter {
            None => r matches Ok(OngoingStep::ReadEmitter),
            Some(view) => {
                &&& r is Ok ==> r->Ok_0 is Done
                &&& distributes_pending(
                    *old(record),
                    *old(state),
                    *old(clock),
                    view,
                    candidate,
                    blnt_xlm_token,
                    members@,
                    now,
                    *final(record),
                    *final(state),
                    *final(clock),
                    Baseline::Current,
                    spec_done(r),
                )
            },
        },
{
    let step = manager::distribute_on(
        e,
        record,
        state,
        clock,
        emitter,
        ongoing,
        candidate,
        blnt_xlm_token,
        members,
        now,
        Baseline::Current,
    )?;
    match step {
        DistributeStep::ReadEmitter => Ok(OngoingStep::ReadEmitter),
        DistributeStep::CallEmitter => Ok(OngoingStep::CallEmitter),
        DistributeStep::Done(allocation) => {
            let checkpoint: u64 = state.last_distribution.unwrap();
            let account = account_of(&allocation, &*state, checkpoint);
            assert(allocation_of(account, allocation.members) == allocation);
            Ok(OngoingStep::Done(account, allocation.members))
        },
    }
}

/// Accrue migration backfill through the ordinary 70/30 emission pipeline; the
/// account with the pools' emissions after it.
pub fn checkpoint_backfill(
    e: &Env,
    is_active: bool,
    state: &mut OngoingEmissionState,
    clock: &mut ZoneClock,
    checkpoint: u64,
    members: &Vec<ZoneMember>,
    scheduled: &mut i128,
) -> (r: Result<(OngoingDistribution, Vec<ZoneMember>), BackstopError>)
    requires
        old(state).conserves(),
    ensures
        r is Err ==> *final(state) == *old(state) && *final(clock) == *old(clock)
            && *final(scheduled) == *old(scheduled),
        match spec_backfill_plan(is_active, *old(state), checkpoint, members@, *old(scheduled)) {
            Err(error) => r matches Err(e) && e == error,
            Ok(BackfillPlan::Advance) => {
                &&& *final(state) == spec_at_checkpoint(*old(state), checkpoint)
                &&& *final(scheduled) == *old(scheduled)
                &&& *final(clock) == ZoneClock::spec_at(checkpoint)
                &&& r matches Ok((account, after)) && accounts_for(
                    account,
                    *final(state),
                    checkpoint,
                    0,
                    0,
                    0,
                    0,
                ) && after@ == members@
            },
            Ok(BackfillPlan::Distribute(amount)) => {
                let (pools, total) = spec_collect_weights(
                    members@,
                    false,
                    no_compositions(),
                )->Ok_0;
                let backstop = backstop_part(*old(state), amount as int);
                let pool = pool_part(*old(state), amount as int);
                if !allocation_fits(
                    *old(state),
                    amount as int,
                    pools,
                    total as int,
                    Baseline::Current,
                ) {
                    r matches Err(e) && e == BackstopError::OverflowError
                } else {
                    &&& *final(state) == spec_state_after(
                        *old(state),
                        amount as int,
                        checkpoint,
                        pools,
                        total as int,
                    )
                    &&& *final(scheduled) == *old(scheduled) + amount
                    &&& *final(clock) == ZoneClock::spec_at(checkpoint)
                    &&& r matches Ok((account, after)) && {
                        &&& accounts_for(
                            account,
                            *final(state),
                            checkpoint,
                            amount as int,
                            total as int,
                            share_sum(pools, backstop, total as int),
                            share_sum(pools, pool, total as int),
                        )
                        &&& members_after(
                            after@,
                            pools,
                            backstop,
                            pool,
                            total as int,
                            Baseline::Current,
                        )
                    }
                }
            },
        },
{
    let allocation = tier_accounting::checkpoint_backfill(
        e,
        is_active,
        state,
        checkpoint,
        members,
        scheduled,
        Baseline::Current,
    )?;
    *clock = ZoneClock::at(checkpoint);
    let account = account_of(&allocation, &*state, checkpoint);
    Ok((account, allocation.members))
}

/// Move the checkpoint on without a distribution.
pub fn advance_without_distribution(
    state: &mut OngoingEmissionState,
    clock: &mut ZoneClock,
    checkpoint: u64,
) -> (r: Result<OngoingDistribution, BackstopError>)
    ensures
        match spec_check_state(spec_at_checkpoint(*old(state), checkpoint)) {
            Ok(_) => {
                &&& *final(state) == spec_at_checkpoint(*old(state), checkpoint)
                &&& *final(clock) == ZoneClock::spec_at(checkpoint)
                &&& r matches Ok(account) && accounts_for(
                    account,
                    *final(state),
                    checkpoint,
                    0,
                    0,
                    0,
                    0,
                )
            },
            Err(error) => {
                &&& r == Err::<OngoingDistribution, BackstopError>(error)
                &&& *final(state) == *old(state)
                &&& *final(clock) == *old(clock)
            },
        },
{
    tier_accounting::advance_without_distribution(state, checkpoint)?;
    *clock = ZoneClock::at(checkpoint);
    Ok(
        OngoingDistribution {
            backstop_allocated: 0,
            backstop_carry: state.backstop_carry,
            checkpoint,
            eligible_blnd: 0,
            pool_allocated: 0,
            pool_carry: state.pool_carry,
            distributed: 0,
            split_carry: state.split_carry,
        },
    )
}

/// The first objection to a weight change: weights stand still, or the pool is a member
/// whose weight counts and the last distribution is more than five seconds old.
pub open spec fn spec_weight_change_error(
    tier: BackstopTier,
    is_active: bool,
    is_current_backstop: bool,
    is_member: bool,
    state: OngoingEmissionState,
    clock: ZoneClock,
    now: u64,
) -> Option<BackstopError> {
    let gate = spec_weight_mutation_gate(is_active, is_current_backstop);
    if tier == BackstopTier::Usdc {
        None
    } else if gate is Err {
        Some(gate->Err_0)
    } else if (tier == BackstopTier::BlndXlm && !is_active) || !is_member {
        None
    } else if !state.valid() {
        Some(BackstopError::InvalidEmissionValue)
    } else if state.last_distribution is None {
        None
    } else if clock.checkpoint matches Some(checkpoint) && recent(
        checkpoint,
        now,
        WEIGHT_CHANGE_CHECKPOINT_MAX_AGE_SECONDS,
    ) {
        None
    } else {
        Some(BackstopError::DistributionCheckpointRequired)
    }
}

/// Require that the weight of a tier may change now.
pub fn prepare_pool_weight_change(
    tier: BackstopTier,
    is_active: bool,
    is_current_backstop: bool,
    is_member: bool,
    state: &OngoingEmissionState,
    clock: &ZoneClock,
    now: u64,
) -> (r: Result<(), BackstopError>)
    ensures
        r == match spec_weight_change_error(
            tier,
            is_active,
            is_current_backstop,
            is_member,
            *state,
            *clock,
            now,
        ) {
            Some(error) => Err(error),
            None => Ok(()),
        },
{
    if tier == BackstopTier::Usdc {
        return Ok(());
    }
    require_weight_mutation_allowed(is_active, is_current_backstop)?;
    if tier == BackstopTier::BlndXlm && !is_active {
        return Ok(());
    }
    if !is_member {
        return Ok(());
    }
    validate_ongoing_emission_state(state)?;
    if state.last_distribution.is_none() {
        return Ok(());
    }
    let checkpoint: u64 = match clock.checkpoint {
        Some(checkpoint) => checkpoint,
        None => return Err(BackstopError::DistributionCheckpointRequired),
    };
    if checkpoint > now || now - checkpoint > WEIGHT_CHANGE_CHECKPOINT_MAX_AGE_SECONDS {
        return Err(BackstopError::DistributionCheckpointRequired);
    }
    Ok(())
}

/// Keep a pool's active LP tokens current after the weight of an LP tier has changed.
pub fn finish_pool_weight_change(
    tier: BackstopTier,
    state: &mut PoolOngoingEmissions,
    blnd_usdc: &PoolBalance,
    blnd_xlm: &PoolBalance,
) -> (r: Result<(), BackstopError>)
    requires
        blnd_usdc.well_formed() ==> blnd_usdc.tokens_for_fits(blnd_usdc.shares - blnd_usdc.q4w),
        blnd_xlm.well_formed() ==> blnd_xlm.tokens_for_fits(blnd_xlm.shares - blnd_xlm.q4w),
    ensures
        if tier == BackstopTier::Usdc {
            &&& r == Ok::<(), BackstopError>(())
            &&& *final(state) == *old(state)
        } else {
            match spec_refreshed(*old(state), Some(*blnd_usdc), Some(*blnd_xlm)) {
                Ok(next) => {
                    &&& r == Ok::<(), BackstopError>(())
                    &&& *final(state) == next
                },
                Err(error) => {
                    &&& r == Err::<(), BackstopError>(error)
                    &&& *final(state) == *old(state)
                },
            }
        },
{
    if tier != BackstopTier::Usdc {
        refresh_pool_ongoing_assets(state, &Some(*blnd_usdc), &Some(*blnd_xlm))?;
    }
    Ok(())
}

/// Collect what a user has accrued in one tier of the listed pools.
pub fn claim_user_ongoing_blnd(
    e: &Env,
    tier: BackstopTier,
    funding: Result<(), BackstopError>,
    positions: &Vec<ClaimPosition>,
    min_lp_tokens_out: i128,
    state: &mut OngoingEmissionState,
    now: u64,
) -> (r: Result<Claims, BackstopError>)
    requires
        forall|i: int| 0 <= i < positions@.len() ==> (#[trigger] positions@[i]).well_formed(),
    ensures
        r is Err ==> *final(state) == *old(state),
        match spec_execute_claim(
            tier,
            funding,
            positions@,
            min_lp_tokens_out,
            *old(state),
            now,
        ) {
            Err(error) => r matches Err(e) && e == error,
            Ok((claims, total, next)) => {
                &&& r matches Ok(c) && c.claims@ == claims && c.blnd_amount == total
                &&& *final(state) == next
            },
        },
{
    execute_claim(e, tier, funding, positions, min_lp_tokens_out, state, now)
}

/// What a user could claim, with nothing changed.
pub fn preview_user_ongoing_blnd(
    e: &Env,
    tier: BackstopTier,
    positions: &Vec<ClaimPosition>,
    now: u64,
) -> (r: Result<i128, BackstopError>)
    requires
        forall|i: int| 0 <= i < positions@.len() ==> (#[trigger] positions@[i]).well_formed(),
    ensures
        r == if tier == BackstopTier::Usdc {
            Err(BackstopError::InvalidEmissionValue)
        } else if positions@.len() == 0 {
            Err(BackstopError::BadRequest)
        } else {
            spec_preview(positions@, now)
        },
{
    preview_claim(e, tier, positions, now)
}

/// Start or refresh a pool's tier streams and hand over its own part.
pub fn gulp_pool_ongoing_emissions(
    e: &Env,
    is_pool: bool,
    streams: &mut PoolStreams,
    blnd_usdc: &PoolBalance,
    blnd_xlm: &PoolBalance,
    allowance: i128,
    sequence: u32,
    ledgers: u32,
    now: u64,
) -> (r: Result<GulpResult, BackstopError>)
    requires
        blnd_usdc.shares >= blnd_usdc.q4w ==> fits_i128(blnd_usdc.shares - blnd_usdc.q4w),
        blnd_xlm.shares >= blnd_xlm.q4w ==> fits_i128(blnd_xlm.shares - blnd_xlm.q4w),
    ensures
        match spec_gulp(
            is_pool,
            *old(streams),
            *blnd_usdc,
            *blnd_xlm,
            allowance,
            sequence,
            ledgers,
            now,
        ) {
            Err(error) => {
                &&& r == Err::<GulpResult, BackstopError>(error)
                &&& *final(streams) == *old(streams)
            },
            Ok(next) => {
                &&& r == Ok::<GulpResult, BackstopError>(next.0)
                &&& *final(streams) == next.1
            },
        },
{
    manager::gulp_emissions(
        e,
        is_pool,
        streams,
        blnd_usdc,
        blnd_xlm,
        allowance,
        sequence,
        ledgers,
        now,
    )
}

} // verus!
