//! Membership, distribution and the taking of emissions by pools.

use soroban_sdk::Env;
use vstd::prelude::*;

use super::distributor;
use super::distributor::spec_set_eps;
use super::policy::checked_add;
use super::reward_zone;
use super::reward_zone::{
    enter_zone, require_recent_distribution_checkpoint, spec_add_error, spec_distributed_recently,
    spec_remove_error, spec_without, spec_zone_with, Departing, Entrant, Leaver,
    RewardZone,
};
use super::tier_accounting::{
    advance_without_distribution, allocate_distribution, allocation_fits, backstop_part,
    checked_signed_sub, checkpoint_backfill, collect_weights, copy_members, emissions_for_seconds,
    law_collected_weights_add_up, members_after, no_compositions, pool_part, share_sum,
    spec_at_checkpoint, spec_backfill_plan, spec_collect_weights, spec_refreshed,
    spec_state_after,
    validate_ongoing_emission_state, validate_pool_ongoing_emissions, Allocation, BackfillPlan,
    Baseline, LpCompositions, WeightedPool, ZoneMember,
};
use crate::backstop::pool::PoolBalance;
use crate::constants::{MAX_RZ_SIZE, SCALAR_7};
use crate::errors::BackstopError;
use crate::math::fits_i128;
use crate::migration::{
    distribution_transition, spec_transition, DistributionTransition, EmitterView, MigrationRecord,
};
use crate::storage::{BackstopEmissionData, OngoingEmissionState, PoolOngoingEmissions, ZoneClock};
use crate::Address;

verus! {

/// The least time between two distributions.
pub const MIN_DISTRIBUTION_INTERVAL_SECONDS: u64 = 5;

/// The least time between two takings of a pool's emissions: one day.
pub const POOL_EMISSION_GULP_INTERVAL_SECONDS: u64 = 86_400;

/// Add a qualifying pool to the reward zone, with its active LP tokens on record. Only
/// the first member of an active migration needs no recent distribution.
pub fn add_to_reward_zone(
    gate: Result<(), BackstopError>,
    is_active: bool,
    zone: &mut RewardZone,
    entrant: &Entrant,
    record: &mut PoolOngoingEmissions,
    leaver: &Option<Leaver>,
    clock: &ZoneClock,
    now: u64,
) -> (r: Result<Option<Address>, BackstopError>)
    requires
        spec_add_error(
            gate,
            old(zone)@,
            *entrant,
            *leaver,
            old(zone)@.len() > 0 || !is_active,
            *clock,
            now,
        ) is None ==> entrant.fits(),
    ensures
        r is Err ==> final(zone)@ == old(zone)@ && *final(record) == *old(record),
        match spec_add_error(
            gate,
            old(zone)@,
            *entrant,
            *leaver,
            old(zone)@.len() > 0 || !is_active,
            *clock,
            now,
        ) {
            Some(error) => r == Err::<Option<Address>, BackstopError>(error),
            None => match spec_refreshed(*old(record), entrant.blnd_usdc, entrant.blnd_xlm) {
                Err(error) => r == Err::<Option<Address>, BackstopError>(error),
                Ok(refreshed) => {
                    &&& final(zone)@ == spec_zone_with(old(zone)@, entrant.pool, *leaver)
                    &&& *final(record) == refreshed
                    &&& r == Ok::<Option<Address>, BackstopError>(
                        if old(zone)@.len() < MAX_RZ_SIZE {
                            None
                        } else {
                            Some(leaver->Some_0.pool)
                        },
                    )
                },
            },
        },
{
    let needs_checkpoint: bool = zone.len() > 0 || !is_active;
    enter_zone(gate, zone, entrant, record, leaver, needs_checkpoint, clock, now)
}

/// Remove a pool that no longer qualifies from the reward zone.
pub fn remove_from_reward_zone(
    gate: Result<(), BackstopError>,
    zone: &mut RewardZone,
    departing: &Departing,
    clock: &ZoneClock,
    now: u64,
) -> (r: Result<(), BackstopError>)
    ensures
        match spec_remove_error(gate, old(zone)@, *departing, *clock, now) {
            Some(error) => {
                &&& r == Err::<(), BackstopError>(error)
                &&& final(zone)@ == old(zone)@
            },
            None => {
                &&& r == Ok::<(), BackstopError>(())
                &&& final(zone)@ == spec_without(old(zone)@, departing.pool)
            },
        },
{
    reward_zone::remove_from_reward_zone(gate, zone, departing, clock, now)
}

/// Require a recent distribution, once distribution has begun.
pub fn require_distribute_run_recently(clock: &ZoneClock, now: u64) -> (r: Result<
    (),
    BackstopError,
>)
    ensures
        r == if spec_distributed_recently(*clock, now) {
            Ok(())
        } else {
            Err(BackstopError::DistributionCheckpointRequired)
        },
{
    require_recent_distribution_checkpoint(clock, now)
}

/// What a call of the emitter's distribution did.
#[derive(Clone, Copy, Debug, PartialEq, Eq, Structural)]
pub struct EmissionReport {
    /// Whether the emitter pays this backstop.
    pub is_current_backstop: bool,
    /// The emitter's last distribution before the call.
    pub checkpoint_before: u64,
    /// The emitter's last distribution after the call.
    pub checkpoint: u64,
    /// The tokens that the emitter reports to have paid.
    pub emitted: i128,
    /// This backstop's token balance before the call, read while the token is not
    /// known to be the emitter's.
    pub balance_before: Option<i128>,
    /// This backstop's token balance after the call.
    pub balance_after: i128,
}

/// The objection to what the emitter did: time that runs backwards or has hardly
/// run, a rate other than one token per second, or a payment in another token.
pub open spec fn spec_report_error(report: EmissionReport, last: u64, now: u64) -> Option<
    BackstopError,
> {
    if report.emitted < 0 {
        Some(BackstopError::InvalidOngoingBalance)
    } else if report.checkpoint < last {
        Some(BackstopError::DistributionTooSoon)
    } else if report.checkpoint < report.checkpoint_before {
        Some(BackstopError::InvalidOngoingBalance)
    } else if report.checkpoint - last < MIN_DISTRIBUTION_INTERVAL_SECONDS {
        Some(BackstopError::DistributionTooSoon)
    } else if report.checkpoint_before < last || report.checkpoint > now || report.emitted != (
    report.checkpoint - report.checkpoint_before) * SCALAR_7 {
        Some(BackstopError::InvalidOngoingBalance)
    } else if report.balance_before is Some && !fits_i128(
        report.balance_after - report.balance_before->Some_0,
    ) {
        Some(BackstopError::OverflowError)
    } else if report.balance_before is Some && (report.emitted <= 0 || report.balance_after
        - report.balance_before->Some_0 != report.emitted) {
        Some(BackstopError::InvalidOngoingBalance)
    } else {
        None
    }
}

/// Check what the emitter did and return the seconds since the last distribution.
pub fn check_emission(report: &EmissionReport, last_distribution: u64, now: u64) -> (r: Result<
    u64,
    BackstopError,
>)
    ensures
        r == match spec_report_error(*report, last_distribution, now) {
            Some(error) => Err(error),
            None => Ok((report.checkpoint - last_distribution) as u64),
        },
{
    if report.emitted < 0 {
        return Err(BackstopError::InvalidOngoingBalance);
    }
    let elapsed: u64 = match report.checkpoint.checked_sub(last_distribution) {
        Some(elapsed) => elapsed,
        None => return Err(BackstopError::DistributionTooSoon),
    };
    let current_elapsed: u64 = match report.checkpoint.checked_sub(report.checkpoint_before) {
        Some(current_elapsed) => current_elapsed,
        None => return Err(BackstopError::InvalidOngoingBalance),
    };
    if elapsed < MIN_DISTRIBUTION_INTERVAL_SECONDS {
        return Err(BackstopError::DistributionTooSoon);
    }
    if report.checkpoint_before < last_distribution || report.checkpoint > now || report.emitted
        != emissions_for_seconds(current_elapsed) {
        return Err(BackstopError::InvalidOngoingBalance);
    }
    if let Some(balance_before) = report.balance_before {
        let binding_delta: i128 = checked_signed_sub(report.balance_after, balance_before)?;
        if report.emitted <= 0 || binding_delta != report.emitted {
            return Err(BackstopError::InvalidOngoingBalance);
        }
    }
    Ok(elapsed)
}

/// The first objection to a distribution of ongoing emissions, up to what the
/// emitter did.
pub open spec fn spec_distribute_error(
    state: OngoingEmissionState,
    members: Seq<ZoneMember>,
    lp: LpCompositions,
    report: EmissionReport,
    now: u64,
) -> Option<BackstopError> {
    if !report.is_current_backstop {
        Some(BackstopError::EmitterDidNotMigrate)
    } else if members.len() == 0 {
        Some(BackstopError::NoEligibleWeight)
    } else if !state.valid() {
        Some(BackstopError::InvalidEmissionValue)
    } else {
        match spec_collect_weights(members, true, lp) {
            Err(error) => Some(error),
            Ok(_) => spec_report_error(report, state.last_distribution->Some_0, now),
        }
    }
}

/// The emissions since the last distribution: one token for each second.
pub open spec fn spec_accrued(state: OngoingEmissionState, report: EmissionReport) -> int {
    (report.checkpoint - state.last_distribution->Some_0) * SCALAR_7
}

/// Whether a distribution of ongoing emissions came out as `r` and left the state and
/// the clock as it should.
pub open spec fn distributes_ongoing(
    state: OngoingEmissionState,
    clock: ZoneClock,
    members: Seq<ZoneMember>,
    lp: LpCompositions,
    report: EmissionReport,
    now: u64,
    state_after: OngoingEmissionState,
    clock_after: ZoneClock,
    baseline: Baseline,
    r: Result<Allocation, BackstopError>,
) -> bool {
    &&& r is Err ==> state_after == state && clock_after == clock
    &&& match spec_distribute_error(state, members, lp, report, now) {
        Some(error) => r matches Err(e) && e == error,
        None => {
            let (pools, total) = spec_collect_weights(members, true, lp)->Ok_0;
            let amount = spec_accrued(state, report);
            let backstop = backstop_part(state, amount);
            let pool = pool_part(state, amount);
            if !allocation_fits(state, amount, pools, total as int, baseline) {
                r matches Err(e) && e == BackstopError::OverflowError
            } else {
                &&& state_after == spec_state_after(
                    state,
                    amount,
                    report.checkpoint,
                    pools,
                    total as int,
                )
                &&& state_after.valid()
                &&& state_after.conserves()
                &&& clock_after == ZoneClock::spec_at(report.checkpoint)
                &&& r matches Ok(allocation) && {
                    &&& allocation.distributed == amount
                    &&& allocation.eligible_blnd == total
                    &&& allocation.backstop_allocated == share_sum(
                        pools,
                        backstop,
                        total as int,
                    )
                    &&& allocation.pool_allocated == share_sum(pools, pool, total as int)
                    &&& members_after(
                        allocation.members@,
                        pools,
                        backstop,
                        pool,
                        total as int,
                        baseline,
                    )
                }
            }
        },
    }
}

/// Distribute the emissions since the last distribution over the reward zone, once
/// the migration is active.
pub fn distribute_ongoing(
    e: &Env,
    state: &mut OngoingEmissionState,
    clock: &mut ZoneClock,
    members: &Vec<ZoneMember>,
    lp: &LpCompositions,
    report: &EmissionReport,
    now: u64,
    baseline: Baseline,
) -> (r: Result<Allocation, BackstopError>)
    requires
        old(state).conserves(),
        old(state).last_distribution is Some,
    ensures
        distributes_ongoing(
            *old(state),
            *old(clock),
            members@,
            *lp,
            *report,
            now,
            *final(state),
            *final(clock),
            baseline,
            r,
        ),
{
    if !report.is_current_backstop {
        return Err(BackstopError::EmitterDidNotMigrate);
    }
    if members.len() == 0 {
        return Err(BackstopError::NoEligibleWeight);
    }
    validate_ongoing_emission_state(&*state)?;
    proof {
        law_collected_weights_add_up(members@, true, *lp);
    }
    let weights: (Vec<WeightedPool>, i128) = collect_weights(e, members, true, lp)?;
    let last_distribution: u64 = state.last_distribution.unwrap();
    let elapsed: u64 = check_emission(report, last_distribution, now)?;
    let allocation = allocate_distribution(
        e,
        state,
        emissions_for_seconds(elapsed),
        report.checkpoint,
        &weights.0,
        weights.1,
        baseline,
    )?;
    *clock = ZoneClock::at(report.checkpoint);
    Ok(allocation)
}

/// Whether an allocation leaves the pools as they were.
pub open spec fn allocates_nothing(allocation: Allocation, members: Seq<ZoneMember>) -> bool {
    &&& allocation.distributed == 0
    &&& allocation.eligible_blnd == 0
    &&& allocation.backstop_allocated == 0
    &&& allocation.pool_allocated == 0
    &&& allocation.members@ == members
}

/// Whether a distribution before the migration is active came out as `r` and left the
/// record, the state and the clock as it should.
pub open spec fn distributes_pending(
    record: MigrationRecord,
    state: OngoingEmissionState,
    clock: ZoneClock,
    emitter: EmitterView,
    candidate: Address,
    blnt_xlm_token: Address,
    members: Seq<ZoneMember>,
    now: u64,
    record_after: MigrationRecord,
    state_after: OngoingEmissionState,
    clock_after: ZoneClock,
    baseline: Baseline,
    r: Result<Allocation, BackstopError>,
) -> bool {
    &&& r is Err ==> record_after == record && state_after == state && clock_after == clock
    &&& match spec_transition(
        record,
        state,
        clock,
        emitter,
        candidate,
        blnt_xlm_token,
        now,
    ) {
        Err(error) => r matches Err(e) && e == error,
        Ok((DistributionTransition::Activated(checkpoint), next, _, _)) => {
            &&& r matches Ok(allocation) && allocates_nothing(allocation, members)
            &&& record_after == next
            &&& state_after == spec_at_checkpoint(state, checkpoint)
            &&& clock_after == ZoneClock::spec_at(checkpoint)
        },
        Ok((DistributionTransition::Backfill(checkpoint), next, opened, _)) => {
            match spec_backfill_plan(
                false,
                opened,
                checkpoint,
                members,
                next.scheduled_backfill,
            ) {
                Err(error) => r matches Err(e) && e == error,
                Ok(BackfillPlan::Advance) => {
                    &&& r matches Ok(allocation) && allocates_nothing(allocation, members)
                    &&& record_after == next
                    &&& state_after == spec_at_checkpoint(opened, checkpoint)
                    &&& clock_after == ZoneClock::spec_at(checkpoint)
                },
                Ok(BackfillPlan::Distribute(amount)) => {
                    let (pools, total) = spec_collect_weights(
                        members,
                        false,
                        no_compositions(),
                    )->Ok_0;
                    let backstop = backstop_part(opened, amount as int);
                    let pool = pool_part(opened, amount as int);
                    if !allocation_fits(opened, amount as int, pools, total as int, baseline) {
                        r matches Err(e) && e == BackstopError::OverflowError
                    } else {
                        &&& r matches Ok(allocation) && {
                            &&& allocation.distributed == amount
                            &&& allocation.eligible_blnd == total
                            &&& allocation.backstop_allocated == share_sum(
                                pools,
                                backstop,
                                total as int,
                            )
                            &&& allocation.pool_allocated == share_sum(
                                pools,
                                pool,
                                total as int,
                            )
                            &&& members_after(
                                allocation.members@,
                                pools,
                                backstop,
                                pool,
                                total as int,
                                baseline,
                            )
                        }
                        &&& record_after == (MigrationRecord {
                            scheduled_backfill: (next.scheduled_backfill + amount) as i128,
                            ..next
                        })
                        &&& state_after == spec_state_after(
                            opened,
                            amount as int,
                            checkpoint,
                            pools,
                            total as int,
                        )
                        &&& state_after.valid()
                        &&& state_after.conserves()
                        &&& clock_after == ZoneClock::spec_at(checkpoint)
                    }
                },
            }
        },
    }
}

/// Distribute before the migration is active: backfill, or the transition to
/// ongoing emissions, which distributes nothing itself; with the pools' emissions after it.
pub fn distribute_pending(
    e: &Env,
    record: &mut MigrationRecord,
    state: &mut OngoingEmissionState,
    clock: &mut ZoneClock,
    emitter: &EmitterView,
    candidate: Address,
    blnt_xlm_token: Address,
    members: &Vec<ZoneMember>,
    now: u64,
    baseline: Baseline,
) -> (r: Result<Allocation, BackstopError>)
    requires
        old(state).valid(),
        old(state).conserves(),
    ensures
        distributes_pending(
            *old(record),
            *old(state),
            *old(clock),
            *emitter,
            candidate,
            blnt_xlm_token,
            members@,
            now,
            *final(record),
            *final(state),
            *final(clock),
            baseline,
            r,
        ),
{
    let mut next_record: MigrationRecord = *record;
    let mut next_state: OngoingEmissionState = *state;
    let mut next_clock: ZoneClock = *clock;
    let transition = distribution_transition(
        &mut next_record,
        &mut next_state,
        &mut next_clock,
        emitter,
        candidate,
        blnt_xlm_token,
        now,
    )?;
    let allocation: Allocation = match transition {
        DistributionTransition::Backfill(checkpoint) => {
            let mut scheduled: i128 = next_record.scheduled_backfill;
            let allocation = checkpoint_backfill(
                e,
                false,
                &mut next_state,
                checkpoint,
                members,
                &mut scheduled,
                baseline,
            )?;
            next_record.scheduled_backfill = scheduled;
            next_clock = ZoneClock::at(checkpoint);
            allocation
        },
        DistributionTransition::Activated(checkpoint) => {
            validate_ongoing_emission_state(&next_state)?;
            next_clock = ZoneClock::at(checkpoint);
            let distributed: i128 = advance_without_distribution(&mut next_state, checkpoint)?;
            Allocation {
                distributed,
                eligible_blnd: 0,
                backstop_allocated: 0,
                pool_allocated: 0,
                members: copy_members(members),
            }
        },
    };
    *record = next_record;
    *state = next_state;
    *clock = next_clock;
    Ok(allocation)
}

/// What a distribution of ongoing emissions reads.
#[derive(Clone, Copy, Debug, PartialEq, Eq, Structural)]
pub struct OngoingReading {
    pub lp: LpCompositions,
    pub report: EmissionReport,
}

/// The next step of a distribution.
#[derive(Debug)]
pub enum DistributeStep {
    /// Read whom the emitter pays and what replacement is queued.
    ReadEmitter,
    /// Read the composition of the LP tokens and have the emitter distribute.
    CallEmitter,
    /// Distributed.
    Done(Allocation),
}

/// Distribute over the reward zone: pending emissions until the migration is active,
/// ongoing emissions from then on. What one of the two needs is asked for where it is
/// not given, with nothing changed. `baseline` is the record of a pool that is listed
/// again.
pub fn distribute_on(
    e: &Env,
    record: &mut MigrationRecord,
    state: &mut OngoingEmissionState,
    clock: &mut ZoneClock,
    emitter: &Option<EmitterView>,
    ongoing: &Option<OngoingReading>,
    candidate: Address,
    blnt_xlm_token: Address,
    members: &Vec<ZoneMember>,
    now: u64,
    baseline: Baseline,
) -> (r: Result<DistributeStep, BackstopError>)
    requires
        old(state).conserves(),
        !old(record).spec_is_active() && emitter is Some ==> old(state).valid(),
        old(record).spec_is_active() && ongoing is Some ==> old(state).last_distribution is Some,
    ensures
        r is Err || !(r->Ok_0 is Done) ==> {
            &&& *final(record) == *old(record)
            &&& *final(state) == *old(state)
            &&& *final(clock) == *old(clock)
        },
        old(record).spec_is_active() ==> *final(record) == *old(record) && match *ongoing {
            None => r matches Ok(DistributeStep::CallEmitter),
            Some(reading) => {
                &&& r is Ok ==> r->Ok_0 is Done
                &&& distributes_ongoing(
                    *old(state),
                    *old(clock),
                    members@,
                    reading.lp,
                    reading.report,
                    now,
                    *final(state),
                    *final(clock),
                    baseline,
                    spec_done(r),
                )
            },
        },
        !old(record).spec_is_active() ==> match *emitter {
            None => r matches Ok(DistributeStep::ReadEmitter),
            Some(view) => {
                &&& r is Ok ==> r->Ok_0 is Done
                &&& distributes_pending(
                    *old(record),
                    *old(state),
                    *old(clock),
                    view,
                    candidate,
                    blnt_xlm_token,
                    members@,
                    now,
                    *final(record),
                    *final(state),
                    *final(clock),
                    baseline,
                    spec_done(r),
                )
            },
        },
{
    if !record.is_active() {
        let view: EmitterView = match emitter {
            None => return Ok(DistributeStep::ReadEmitter),
            Some(view) => *view,
        };
        let allocation = distribute_pending(
            e,
            record,
            state,
            clock,
            &view,
            candidate,
            blnt_xlm_token,
            members,
            now,
            baseline,
        )?;
        return Ok(DistributeStep::Done(allocation));
    }
    let reading: OngoingReading = match ongoing {
        None => return Ok(DistributeStep::CallEmitter),
        Some(reading) => *reading,
    };
    let allocation = distribute_ongoing(
        e,
        state,
        clock,
        members,
        &reading.lp,
        &reading.report,
        now,
        baseline,
    )?;
    Ok(DistributeStep::Done(allocation))
}

/// Distribute over the reward zone: pending emissions until the migration is active,
/// ongoing emissions from then on. What one of the two needs is asked for where it is
/// not given, with nothing changed.
pub fn distribute(
    e: &Env,
    record: &mut MigrationRecord,
    state: &mut OngoingEmissionState,
    clock: &mut ZoneClock,
    emitter: &Option<EmitterView>,
    ongoing: &Option<OngoingReading>,
    candidate: Address,
    blnt_xlm_token: Address,
    members: &Vec<ZoneMember>,
    now: u64,
) -> (r: Result<DistributeStep, BackstopError>)
    requires
        old(state).conserves(),
        !old(record).spec_is_active() && emitter is Some ==> old(state).valid(),
        old(record).spec_is_active() && ongoing is Some ==> old(state).last_distribution is Some,
    ensures
        r is Err || !(r->Ok_0 is Done) ==> {
            &&& *final(record) == *old(record)
            &&& *final(state) == *old(state)
            &&& *final(clock) == *old(clock)
        },
        old(record).spec_is_active() ==> *final(record) == *old(record) && match *ongoing {
            None => r matches Ok(DistributeStep::CallEmitter),
            Some(reading) => {
                &&& r is Ok ==> r->Ok_0 is Done
                &&& distributes_ongoing(
                    *old(state),
                    *old(clock),
                    members@,
                    reading.lp,
                    reading.report,
                    now,
                    *final(state),
                    *final(clock),
                    Baseline::Weighed,
                    spec_done(r),
                )
            },
        },
        !old(record).spec_is_active() ==> match *emitter {
            None => r matches Ok(DistributeStep::ReadEmitter),
            Some(view) => {
                &&& r is Ok ==> r->Ok_0 is Done
                &&& distributes_pending(
                    *old(record),
                    *old(state),
                    *old(clock),
                    view,
                    candidate,
                    blnt_xlm_token,
                    members@,
                    now,
                    *final(record),
                    *final(state),
                    *final(clock),
                    Baseline::Weighed,
                    spec_done(r),
                )
            },
        },
{
    distribute_on(
        e,
        record,
        state,
        clock,
        emitter,
        ongoing,
        candidate,
        blnt_xlm_token,
        members,
        now,
        Baseline::Weighed,
    )
}

/// What a finished distribution came to.
pub open spec fn spec_done(r: Result<DistributeStep, BackstopError>) -> Result<
    Allocation,
    BackstopError,
> {
    match r {
        Ok(step) => Ok(step->Done_0),
        Err(error) => Err(error),
    }
}

/// Whether a pool takes its emissions too soon after the last time.
pub open spec fn gulps_too_soon(last_gulp: Option<u64>, now: u64) -> bool {
    last_gulp matches Some(last) && now < last + POOL_EMISSION_GULP_INTERVAL_SECONDS
}

/// A token approval.
#[derive(Clone, Copy, Debug, PartialEq, Eq, Structural)]
pub struct Approval {
    pub allowance: i128,
    pub expiration_ledger: u32,
}

/// What a pool has taken, with the token approval that hands over its own part.
#[derive(Clone, Copy, Debug, PartialEq, Eq, Structural)]
pub struct GulpResult {
    /// What the tiers' streams were given.
    pub backstop: i128,
    /// What the pool itself may take.
    pub pool: i128,
    /// The pool's new allowance, where it changes.
    pub approval: Option<Approval>,
}

/// The emissions of one pool with the streams of its two LP tiers.
#[derive(Clone, Copy, Debug, PartialEq, Eq, Structural)]
pub struct PoolStreams {
    pub state: PoolOngoingEmissions,
    pub blnd_usdc: Option<BackstopEmissionData>,
    pub blnd_xlm: Option<BackstopEmissionData>,
    pub last_gulp: Option<u64>,
}

/// The approval that adds `amount` to an allowance, or the overflow.
pub open spec fn spec_approval(amount: int, allowance: int, sequence: u32, ledgers: u32) -> Result<
    Option<Approval>,
    BackstopError,
> {
    if amount <= 0 {
        Ok(None)
    } else if !fits_i128(allowance + amount) || sequence + ledgers > u32::MAX {
        Err(BackstopError::OverflowError)
    } else {
        Ok(
            Some(
                Approval {
                    allowance: (allowance + amount) as i128,
                    expiration_ledger: (sequence + ledgers) as u32,
                },
            ),
        )
    }
}

/// What a pool takes and what it leaves, or the first objection.
pub open spec fn spec_gulp(
    is_pool: bool,
    streams: PoolStreams,
    blnd_usdc: PoolBalance,
    blnd_xlm: PoolBalance,
    allowance: i128,
    sequence: u32,
    ledgers: u32,
    now: u64,
) -> Result<(GulpResult, PoolStreams), BackstopError> {
    let state = streams.state;
    let pending = state.pending_blnd_usdc + state.pending_blnd_xlm;
    if !is_pool {
        Err(BackstopError::NotPool)
    } else if gulps_too_soon(streams.last_gulp, now) {
        Err(BackstopError::PoolEmissionGulpTooSoon)
    } else if !state.valid() {
        Err(BackstopError::InvalidEmissionValue)
    } else if pending > i128::MAX {
        Err(BackstopError::OverflowError)
    } else if pending == 0 && state.accrued_pool == 0 {
        Ok((GulpResult { backstop: 0, pool: 0, approval: None }, streams))
    } else {
        match (
            spec_set_eps(streams.blnd_usdc, blnd_usdc, state.pending_blnd_usdc, now),
            spec_set_eps(streams.blnd_xlm, blnd_xlm, state.pending_blnd_xlm, now),
            spec_approval(state.accrued_pool as int, allowance as int, sequence, ledgers),
        ) {
            (Err(error), _, _) => Err(error),
            (_, Err(error), _) => Err(error),
            (_, _, Err(error)) => Err(error),
            (Ok(usdc_stream), Ok(xlm_stream), Ok(approval)) => Ok(
                (
                    GulpResult {
                        backstop: pending as i128,
                        pool: state.accrued_pool,
                        approval,
                    },
                    PoolStreams {
                        state: PoolOngoingEmissions {
                            accrued_pool: 0,
                            pending_blnd_usdc: 0,
                            pending_blnd_xlm: 0,
                            ..state
                        },
                        blnd_usdc: usdc_stream,
                        blnd_xlm: xlm_stream,
                        last_gulp: Some(now),
                    },
                ),
            ),
        }
    }
}

/// Start or refresh a pool's tier streams and hand over its own part. `allowance` is
/// what the pool may already take, `ledgers` how long the new allowance runs.
pub fn gulp_emissions(
    e: &Env,
    is_pool: bool,
    streams: &mut PoolStreams,
    blnd_usdc: &PoolBalance,
    blnd_xlm: &PoolBalance,
    allowance: i128,
    sequence: u32,
    ledgers: u32,
    now: u64,
) -> (r: Result<GulpResult, BackstopError>)
    requires
        blnd_usdc.shares >= blnd_usdc.q4w ==> fits_i128(blnd_usdc.shares - blnd_usdc.q4w),
        blnd_xlm.shares >= blnd_xlm.q4w ==> fits_i128(blnd_xlm.shares - blnd_xlm.q4w),
    ensures
        match spec_gulp(
            is_pool,
            *old(streams),
            *blnd_usdc,
            *blnd_xlm,
            allowance,
            sequence,
            ledgers,
            now,
        ) {
            Err(error) => {
                &&& r == Err::<GulpResult, BackstopError>(error)
                &&& *final(streams) == *old(streams)
            },
            Ok(next) => {
                &&& r == Ok::<GulpResult, BackstopError>(next.0)
                &&& *final(streams) == next.1
            },
        },
{
    if !is_pool {
        return Err(BackstopError::NotPool);
    }
    if let Some(last_gulp) = streams.last_gulp {
        match last_gulp.checked_add(POOL_EMISSION_GULP_INTERVAL_SECONDS) {
            None => return Err(BackstopError::PoolEmissionGulpTooSoon),
            Some(next_gulp) => {
                if next_gulp > now {
                    return Err(BackstopError::PoolEmissionGulpTooSoon);
                }
            },
        }
    }
    let state: PoolOngoingEmissions = streams.state;
    validate_pool_ongoing_emissions(&state)?;
    let backstop_amount: i128 = checked_add(state.pending_blnd_usdc, state.pending_blnd_xlm)?;
    let pool_amount: i128 = state.accrued_pool;
    if backstop_amount == 0 && pool_amount == 0 {
        return Ok(GulpResult { backstop: 0, pool: 0, approval: None });
    }
    let mut usdc_stream = streams.blnd_usdc;
    set_backstop_emission_eps(e, &mut usdc_stream, blnd_usdc, state.pending_blnd_usdc, now)?;
    let mut xlm_stream = streams.blnd_xlm;
    set_backstop_emission_eps(e, &mut xlm_stream, blnd_xlm, state.pending_blnd_xlm, now)?;
    let approval: Option<Approval> = if pool_amount > 0 {
        let allowance: i128 = checked_add(allowance, pool_amount)?;
        let expiration_ledger: u32 = match sequence.checked_add(ledgers) {
            Some(expiration_ledger) => expiration_ledger,
            None => return Err(BackstopError::OverflowError),
        };
        Some(Approval { allowance, expiration_ledger })
    } else {
        None
    };
    *streams = PoolStreams {
        state: PoolOngoingEmissions {
            accrued_pool: 0,
            active_blnd_usdc: state.active_blnd_usdc,
            active_blnd_xlm: state.active_blnd_xlm,
            backstop_tier_carry: state.backstop_tier_carry,
            pending_blnd_usdc: 0,
            pending_blnd_xlm: 0,
        },
        blnd_usdc: usdc_stream,
        blnd_xlm: xlm_stream,
        last_gulp: Some(now),
    };
    Ok(GulpResult { backstop: backstop_amount, pool: pool_amount, approval })
}

/// Set a fresh seven-day emission stream for one backstop tier.
pub fn set_backstop_emission_eps(
    e: &Env,
    emission: &mut Option<BackstopEmissionData>,
    pool_balance: &PoolBalance,
    pending: i128,
    now: u64,
) -> (r: Result<(), BackstopError>)
    requires
        pool_balance.shares >= pool_balance.q4w ==> fits_i128(
            pool_balance.shares - pool_balance.q4w,
        ),
    ensures
        match spec_set_eps(*old(emission), *pool_balance, pending, now) {
            Err(error) => {
                &&& r == Err::<(), BackstopError>(error)
                &&& *final(emission) == *old(emission)
            },
            Ok(next) => {
                &&& r == Ok::<(), BackstopError>(())
                &&& *final(emission) == next
            },
        },
{
    distributor::set_backstop_emission_eps(e, emission, pool_balance, pending, now)
}

/// What a pool takes is gone from its emissions: right after it there is nothing to
/// take, and for a day the next try is refused.
pub proof fn law_gulps_are_once_a_day(
    streams: PoolStreams,
    blnd_usdc: PoolBalance,
    blnd_xlm: PoolBalance,
    allowance: i128,
    sequence: u32,
    ledgers: u32,
    now: u64,
    later: u64,
)
    requires
        now <= later < now + POOL_EMISSION_GULP_INTERVAL_SECONDS,
    ensures
        spec_gulp(true, streams, blnd_usdc, blnd_xlm, allowance, sequence, ledgers, now) matches Ok(
            first,
        ) ==> (first.0.backstop + first.0.pool > 0 ==> {
            &&& first.1.state.pending_blnd_usdc == 0
            &&& first.1.state.pending_blnd_xlm == 0
            &&& first.1.state.accrued_pool == 0
            &&& spec_gulp(
                true,
                first.1,
                blnd_usdc,
                blnd_xlm,
                allowance,
                sequence,
                ledgers,
                later,
            ) == Err::<(GulpResult, PoolStreams), BackstopError>(
                BackstopError::PoolEmissionGulpTooSoon,
            )
        }),
{
}

} // verus!
