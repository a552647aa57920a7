//! The handover of emissions from an incumbent backstop.

use vstd::prelude::*;

use crate::constants::MAX_BACKFILLED_EMISSIONS;
use crate::dependencies::emitter::Swap;
use crate::errors::BackstopError;
use crate::math::fits_i128;
use crate::storage::{OngoingEmissionState, ZoneClock};
use crate::Address;

verus! {

/// How long before its unlock a queued replacement can be attested: seven days.
pub const QUEUE_ATTESTATION_WINDOW_SECONDS: u64 = 604_800;

/// How long after its unlock a replacement can be activated: seven days.
pub const ACTIVATION_GRACE_SECONDS: u64 = 604_800;

/// The migration's own records.
#[derive(Clone, Copy, Debug, PartialEq, Eq, Structural)]
pub struct MigrationRecord {
    /// When the backfill began.
    pub migration_epoch_start: Option<u64>,
    /// The unlock time of the queued replacement as last attested.
    pub verified_queue_unlock: Option<u64>,
    /// When the migration became active.
    pub activated_at: Option<u64>,
    /// The time up to which backfill was distributed.
    pub backfill_end: Option<u64>,
    /// All backfill distributed.
    pub scheduled_backfill: i128,
}

/// Where the migration stands.
#[derive(Clone, Copy, Debug, PartialEq, Eq, Structural)]
pub enum MigrationStatus {
    Pending,
    Open,
    Active,
}

impl MigrationRecord {
    /// Whether the migration is active.
    pub open spec fn spec_is_active(self) -> bool {
        self.activated_at is Some
    }

    /// Whether the migration is active.
    pub fn is_active(&self) -> (r: bool)
        ensures
            r == self.spec_is_active(),
    {
        self.activated_at.is_some()
    }

    /// Where the migration stands.
    pub fn status(&self) -> (r: MigrationStatus)
        ensures
            r == if self.spec_is_active() {
                MigrationStatus::Active
            } else if self.migration_epoch_start is Some {
                MigrationStatus::Open
            } else {
                MigrationStatus::Pending
            },
    {
        if self.is_active() {
            MigrationStatus::Active
        } else if self.migration_epoch_start.is_some() {
            MigrationStatus::Open
        } else {
            MigrationStatus::Pending
        }
    }
}

/// Require that the migration is active.
pub fn require_active(is_active: bool) -> (r: Result<(), BackstopError>)
    ensures
        r == if is_active {
            Ok(())
        } else {
            Err(BackstopError::MigrationNotActive)
        },
{
    if !is_active {
        return Err(BackstopError::MigrationNotActive);
    }
    Ok(())
}

/// After the emitter has switched over, weights stand still until `distribute`
/// has moved the accounting from backfill to ongoing emissions.
pub open spec fn spec_weight_mutation_gate(is_active: bool, is_current_backstop: bool) -> Result<
    (),
    BackstopError,
> {
    if !is_active && is_current_backstop {
        Err(BackstopError::MigrationNotActive)
    } else {
        Ok(())
    }
}

/// Require that weights may change. `is_current_backstop` says whether the emitter
/// pays this backstop.
pub fn require_weight_mutation_allowed(is_active: bool, is_current_backstop: bool) -> (r: Result<
    (),
    BackstopError,
>)
    ensures
        r == spec_weight_mutation_gate(is_active, is_current_backstop),
{
    if is_active {
        return Ok(());
    }
    if is_current_backstop {
        return Err(BackstopError::MigrationNotActive);
    }
    Ok(())
}

/// Require that the migration is active and that all its backfill is funded.
pub fn require_backfill_funded(is_active: bool, scheduled: i128, funded: Option<i128>) -> (r:
    Result<(), BackstopError>)
    ensures
        r == if !is_active {
            Err(BackstopError::MigrationNotActive)
        } else if scheduled > 0 && funded != Some(scheduled) {
            Err(BackstopError::BackfillNotFunded)
        } else {
            Ok(())
        },
{
    require_active(is_active)?;
    if scheduled > 0 {
        match funded {
            Some(amount) => {
                if amount != scheduled {
                    return Err(BackstopError::BackfillNotFunded);
                }
            },
            None => return Err(BackstopError::BackfillNotFunded),
        }
    }
    Ok(())
}

/// The objection to more backfill: a negative amount, a sum beyond an `i128`, or
/// one beyond the cap.
pub open spec fn spec_backfill_error(scheduled: i128, amount: i128) -> Option<BackstopError> {
    if amount < 0 {
        Some(BackstopError::InvalidEmissionValue)
    } else if scheduled + amount > i128::MAX {
        Some(BackstopError::OverflowError)
    } else if scheduled + amount > MAX_BACKFILLED_EMISSIONS {
        Some(BackstopError::MaxBackfillEmissions)
    } else {
        None
    }
}

/// Add to the backfill distributed.
pub fn record_backfill_distribution(scheduled: &mut i128, amount: i128) -> (r: Result<
    (),
    BackstopError,
>)
    ensures
        match spec_backfill_error(*old(scheduled), amount) {
            Some(error) => {
                &&& r == Err::<(), BackstopError>(error)
                &&& *final(scheduled) == *old(scheduled)
            },
            None => {
                &&& r == Ok::<(), BackstopError>(())
                &&& *final(scheduled) == *old(scheduled) + amount
                &&& *final(scheduled) <= MAX_BACKFILLED_EMISSIONS
            },
        },
{
    if amount < 0 {
        return Err(BackstopError::InvalidEmissionValue);
    }
    let next: i128 = match scheduled.checked_add(amount) {
        Some(next) => next,
        None => return Err(BackstopError::OverflowError),
    };
    if next > MAX_BACKFILLED_EMISSIONS {
        return Err(BackstopError::MaxBackfillEmissions);
    }
    *scheduled = next;
    Ok(())
}

/// Whether a queued replacement hands over to this backstop with its BLND:XLM token.
pub open spec fn queue_targets(queued: Swap, candidate: Address, blnt_xlm_token: Address) -> bool {
    queued.new_backstop == candidate && queued.new_backstop_token == blnt_xlm_token
}

/// Require that a queued replacement hands over to this backstop.
pub fn require_valid_queue(queued: &Swap, candidate: Address, blnt_xlm_token: Address) -> (r: Result<
    (),
    BackstopError,
>)
    ensures
        r == if queue_targets(*queued, candidate, blnt_xlm_token) {
            Ok(())
        } else {
            Err(BackstopError::InvalidQueuedSwap)
        },
{
    if queued.new_backstop != candidate || queued.new_backstop_token != blnt_xlm_token {
        return Err(BackstopError::InvalidQueuedSwap);
    }
    Ok(())
}

/// The unlock time that a queued replacement is attested with at `now`: only from
/// a week before it to a week after it.
pub open spec fn spec_attest_queue(unlock_time: u64, now: u64) -> Result<
    Option<u64>,
    BackstopError,
> {
    if unlock_time + ACTIVATION_GRACE_SECONDS > u64::MAX {
        Err(BackstopError::OverflowError)
    } else if unlock_time - QUEUE_ATTESTATION_WINDOW_SECONDS <= now <= unlock_time
        + ACTIVATION_GRACE_SECONDS {
        Ok(Some(unlock_time))
    } else {
        Ok(None)
    }
}

/// Attest a queued replacement.
pub fn attest_queue(queued: &Swap, now: u64) -> (r: Result<Option<u64>, BackstopError>)
    ensures
        r == spec_attest_queue(queued.unlock_time, now),
{
    let attestation_start: u64 = if queued.unlock_time >= QUEUE_ATTESTATION_WINDOW_SECONDS {
        queued.unlock_time - QUEUE_ATTESTATION_WINDOW_SECONDS
    } else {
        0
    };
    let attestation_end: u64 = match queued.unlock_time.checked_add(ACTIVATION_GRACE_SECONDS) {
        Some(attestation_end) => attestation_end,
        None => return Err(BackstopError::OverflowError),
    };
    if now >= attestation_start && now <= attestation_end {
        Ok(Some(queued.unlock_time))
    } else {
        Ok(None)
    }
}

/// The first objection to an activation at `now`: outside the week that follows the
/// attested unlock, a backfill without an attested queue, or an emitter whose
/// last distribution does not lie between the backfill's end and now.
pub open spec fn spec_activation_error(
    record: MigrationRecord,
    state: OngoingEmissionState,
    last_distribution: u64,
    now: u64,
) -> Option<BackstopError> {
    let end = match state.last_distribution {
        Some(end) => end,
        None => last_distribution,
    };
    if record.verified_queue_unlock is Some && record.verified_queue_unlock->Some_0
        + ACTIVATION_GRACE_SECONDS > u64::MAX {
        Some(BackstopError::OverflowError)
    } else if record.verified_queue_unlock is Some && !(record.verified_queue_unlock->Some_0 <= now
        <= record.verified_queue_unlock->Some_0 + ACTIVATION_GRACE_SECONDS) {
        Some(BackstopError::SyncWindowExpired)
    } else if record.verified_queue_unlock is None && record.migration_epoch_start is Some {
        Some(BackstopError::MigrationNotPrepared)
    } else if last_distribution > now || end > last_distribution {
        Some(BackstopError::InvalidOngoingBalance)
    } else {
        None
    }
}

/// The records of a migration that became active at `now`.
pub open spec fn spec_activated(
    record: MigrationRecord,
    state: OngoingEmissionState,
    last_distribution: u64,
    now: u64,
) -> MigrationRecord {
    MigrationRecord {
        activated_at: Some(now),
        backfill_end: Some(
            match state.last_distribution {
                Some(end) => end,
                None => last_distribution,
            },
        ),
        ..record
    }
}

/// Make the migration active: ongoing emissions count from the emitter's last distribution.
pub fn activate(
    record: &mut MigrationRecord,
    state: &mut OngoingEmissionState,
    last_distribution: u64,
    now: u64,
) -> (r: Result<u64, BackstopError>)
    ensures
        match spec_activation_error(*old(record), *old(state), last_distribution, now) {
            Some(error) => {
                &&& r == Err::<u64, BackstopError>(error)
                &&& *final(record) == *old(record)
                &&& *final(state) == *old(state)
            },
            None => {
                &&& r == Ok::<u64, BackstopError>(last_distribution)
                &&& *final(record) == spec_activated(
                    *old(record),
                    *old(state),
                    last_distribution,
                    now,
                )
                &&& *final(state) == (OngoingEmissionState {
                    last_distribution: Some(last_distribution),
                    ..*old(state)
                })
            },
        },
{
    match record.verified_queue_unlock {
        Some(verified_unlock) => {
            let deadline: u64 = match verified_unlock.checked_add(ACTIVATION_GRACE_SECONDS) {
                Some(deadline) => deadline,
                None => return Err(BackstopError::OverflowError),
            };
            if now < verified_unlock || now > deadline {
                return Err(BackstopError::SyncWindowExpired);
            }
        },
        None => {
            if record.migration_epoch_start.is_some() {
                return Err(BackstopError::MigrationNotPrepared);
            }
        },
    }
    if last_distribution > now {
        return Err(BackstopError::InvalidOngoingBalance);
    }
    let backfill_end: u64 = match state.last_distribution {
        Some(end) => end,
        None => last_distribution,
    };
    if backfill_end > last_distribution {
        return Err(BackstopError::InvalidOngoingBalance);
    }
    state.last_distribution = Some(last_distribution);
    record.activated_at = Some(now);
    record.backfill_end = Some(backfill_end);
    Ok(last_distribution)
}

/// What a distribution does before the migration is active.
#[derive(Clone, Copy, Debug, PartialEq, Eq, Structural)]
pub enum DistributionTransition {
    /// Distribute backfill up to this time.
    Backfill(u64),
    /// The migration has become active; ongoing emissions count from this time.
    Activated(u64),
}

/// What the emitter reports to a migration that is not active.
#[derive(Clone, Copy, Debug, PartialEq, Eq, Structural)]
pub struct EmitterView {
    /// Whether the emitter pays this backstop.
    pub is_current_backstop: bool,
    /// The queued replacement.
    pub queued: Option<Swap>,
    /// The emitter's last distribution to this backstop.
    pub last_distribution: u64,
}

/// The attestation at `now`, or the objection to the queued replacement.
pub open spec fn spec_attestation(
    queued: Option<Swap>,
    candidate: Address,
    blnt_xlm_token: Address,
    now: u64,
) -> Result<Option<u64>, BackstopError> {
    match queued {
        None => Ok(None),
        Some(queued) => if !queue_targets(queued, candidate, blnt_xlm_token) {
            Err(BackstopError::InvalidQueuedSwap)
        } else {
            spec_attest_queue(queued.unlock_time, now)
        },
    }
}

/// What a distribution does before the migration is active, with the records that it
/// leaves: activate once the emitter pays this backstop; until then attest the queued
/// replacement, and open the backfill with the first call.
pub open spec fn spec_transition(
    record: MigrationRecord,
    state: OngoingEmissionState,
    clock: ZoneClock,
    emitter: EmitterView,
    candidate: Address,
    blnt_xlm_token: Address,
    now: u64,
) -> Result<
    (DistributionTransition, MigrationRecord, OngoingEmissionState, ZoneClock),
    BackstopError,
> {
    let last = emitter.last_distribution;
    if record.spec_is_active() {
        Err(BackstopError::AlreadyFinalized)
    } else if emitter.is_current_backstop {
        match spec_activation_error(record, state, last, now) {
            Some(error) => Err(error),
            None => Ok(
                (
                    DistributionTransition::Activated(last),
                    spec_activated(record, state, last, now),
                    OngoingEmissionState { last_distribution: Some(last), ..state },
                    clock,
                ),
            ),
        }
    } else {
        match spec_attestation(emitter.queued, candidate, blnt_xlm_token, now) {
            Err(error) => Err(error),
            Ok(attested) => {
                let seen = MigrationRecord { verified_queue_unlock: attested, ..record };
                if record.migration_epoch_start is Some {
                    Ok((DistributionTransition::Backfill(now), seen, state, clock))
                } else {
                    Ok(
                        (
                            DistributionTransition::Backfill(now),
                            MigrationRecord { migration_epoch_start: Some(now), ..seen },
                            OngoingEmissionState::spec_empty_at(now),
                            ZoneClock::spec_at(now),
                        ),
                    )
                }
            },
        }
    }
}

/// Decide what a distribution does before the migration is active.
pub fn distribution_transition(
    record: &mut MigrationRecord,
    state: &mut OngoingEmissionState,
    clock: &mut ZoneClock,
    emitter: &EmitterView,
    candidate: Address,
    blnt_xlm_token: Address,
    now: u64,
) -> (r: Result<DistributionTransition, BackstopError>)
    ensures
        match spec_transition(
            *old(record),
            *old(state),
            *old(clock),
            *emitter,
            candidate,
            blnt_xlm_token,
            now,
        ) {
            Err(error) => {
                &&& r == Err::<DistributionTransition, BackstopError>(error)
                &&& *final(record) == *old(record)
                &&& *final(state) == *old(state)
                &&& *final(clock) == *old(clock)
            },
            Ok(next) => {
                &&& r == Ok::<DistributionTransition, BackstopError>(next.0)
                &&& *final(record) == next.1
                &&& *final(state) == next.2
                &&& *final(clock) == next.3
            },
        },
{
    if record.is_active() {
        return Err(BackstopError::AlreadyFinalized);
    }
    if emitter.is_current_backstop {
        let checkpoint: u64 = activate(record, state, emitter.last_distribution, now)?;
        return Ok(DistributionTransition::Activated(checkpoint));
    }
    let attested: Option<u64> = match &emitter.queued {
        Some(queued) => {
            require_valid_queue(queued, candidate, blnt_xlm_token)?;
            attest_queue(queued, now)?
        },
        None => None,
    };
    record.verified_queue_unlock = attested;
    if record.migration_epoch_start.is_none() {
        open_backfill_epoch(record, state, clock, now);
    }
    Ok(DistributionTransition::Backfill(now))
}

/// Begin the backfill: nothing is distributed up to its start.
pub fn open_backfill_epoch(
    record: &mut MigrationRecord,
    state: &mut OngoingEmissionState,
    clock: &mut ZoneClock,
    epoch_start: u64,
)
    ensures
        *final(record) == (MigrationRecord {
            migration_epoch_start: Some(epoch_start),
            ..*old(record)
        }),
        *final(state) == OngoingEmissionState::spec_empty_at(epoch_start),
        *final(clock) == ZoneClock::spec_at(epoch_start),
{
    record.migration_epoch_start = Some(epoch_start);
    *state = OngoingEmissionState::empty_at(epoch_start);
    *clock = ZoneClock::at(epoch_start);
}

/// What a drop list pays to one recipient on top of `base`, an overflow where an
/// `i128` cannot hold it.
pub open spec fn spec_paid_to(recipients: Seq<(Address, i128)>, to: Address, base: int) -> Result<
    i128,
    BackstopError,
>
    decreases recipients.len(),
{
    if recipients.len() == 0 {
        Ok(base as i128)
    } else {
        match spec_paid_to(recipients.drop_last(), to, base) {
            Err(error) => Err(error),
            Ok(paid) => if recipients.last().0 != to {
                Ok(paid)
            } else if fits_i128(paid + recipients.last().1) {
                Ok((paid + recipients.last().1) as i128)
            } else {
                Err(BackstopError::OverflowError)
            },
        }
    }
}

proof fn lemma_paid_to_error(recipients: Seq<(Address, i128)>, to: Address, base: int, i: int)
    requires
        0 <= i <= recipients.len(),
        spec_paid_to(recipients.take(i), to, base) is Err,
    ensures
        spec_paid_to(recipients, to, base) == spec_paid_to(recipients.take(i), to, base),
    decreases recipients.len() - i,
{
    if i == recipients.len() {
        assert(recipients.take(i) =~= recipients);
    } else {
        assert(recipients.take(i + 1).drop_last() =~= recipients.take(i));
        lemma_paid_to_error(recipients, to, base, i + 1);
    }
}

/// The drop that the emitter is asked for.
#[derive(Debug)]
pub struct DropPlan {
    /// The backfill that the drop funds.
    pub scheduled: i128,
    /// Who is paid how much.
    pub recipients: Vec<(Address, i128)>,
    /// What the backstop itself has to receive.
    pub expected_delta: i128,
}

/// The first objection to a drop: backfill that is funded already, a migration
/// that is not active, or scheduled backfill out of bounds.
pub open spec fn spec_drop_error(funded: Option<i128>, is_active: bool, scheduled: i128) -> Option<
    BackstopError,
> {
    if funded is Some {
        Some(BackstopError::BackfillAlreadyFunded)
    } else if !is_active {
        Some(BackstopError::MigrationNotActive)
    } else if !(0 <= scheduled <= MAX_BACKFILLED_EMISSIONS) {
        Some(BackstopError::InvalidBackfillFunding)
    } else {
        None
    }
}

/// The recipients of a drop: the drop list, and the backstop for the backfill.
pub open spec fn spec_drop_recipients(
    drop_list: Seq<(Address, i128)>,
    candidate: Address,
    scheduled: i128,
) -> Seq<(Address, i128)> {
    if scheduled > 0 {
        drop_list.push((candidate, scheduled))
    } else {
        drop_list
    }
}

/// Plan the one drop that pays the drop list and funds the backfill, and mark the
/// backfill as funded.
pub fn drop(
    funded: &mut Option<i128>,
    is_active: bool,
    scheduled: i128,
    drop_list: &Vec<(Address, i128)>,
    candidate: Address,
) -> (r: Result<DropPlan, BackstopError>)
    ensures
        r is Err ==> *final(funded) == *old(funded),
        match spec_drop_error(*old(funded), is_active, scheduled) {
            Some(error) => r matches Err(e) && e == error,
            None => match spec_paid_to(drop_list@, candidate, scheduled as int) {
                Err(error) => r matches Err(e) && e == error,
                Ok(paid) => {
                    &&& *final(funded) == Some(scheduled)
                    &&& r matches Ok(plan) && {
                        &&& plan.scheduled == scheduled
                        &&& plan.expected_delta == paid
                        &&& plan.recipients@ == spec_drop_recipients(
                            drop_list@,
                            candidate,
                            scheduled,
                        )
                    }
                },
            },
        },
{
    if funded.is_some() {
        return Err(BackstopError::BackfillAlreadyFunded);
    }
    require_active(is_active)?;
    if scheduled < 0 || scheduled > MAX_BACKFILLED_EMISSIONS {
        return Err(BackstopError::InvalidBackfillFunding);
    }
    let mut recipients: Vec<(Address, i128)> = Vec::new();
    let mut expected_delta: i128 = scheduled;
    let mut index: usize = 0;
    while index < drop_list.len()
        invariant
            index <= drop_list@.len(),
            recipients@ == drop_list@.take(index as int),
            spec_paid_to(drop_list@.take(index as int), candidate, scheduled as int) == Ok::<
                i128,
                BackstopError,
            >(expected_delta),
            *funded == *old(funded),
            spec_drop_error(*old(funded), is_active, scheduled) is None,
        decreases drop_list@.len() - index,
    {
        let entry: (Address, i128) = drop_list[index];
        proof {
            let next = drop_list@.take(index + 1);
            assert(next.drop_last() =~= drop_list@.take(index as int));
            assert(next.last() == entry);
            assert(next =~= drop_list@.take(index as int).push(entry));
            if spec_paid_to(next, candidate, scheduled as int) is Err {
                lemma_paid_to_error(drop_list@, candidate, scheduled as int, index + 1);
            }
        }
        if entry.0 == candidate {
            expected_delta = match expected_delta.checked_add(entry.1) {
                Some(sum) => sum,
                None => return Err(BackstopError::OverflowError),
            };
        }
        recipients.push(entry);
        index = index + 1;
    }
    assert(drop_list@.take(index as int) =~= drop_list@);
    if scheduled > 0 {
        recipients.push((candidate, scheduled));
    }
    *funded = Some(scheduled);
    Ok(DropPlan { scheduled, recipients, expected_delta })
}

/// Check that the backstop received exactly what the drop owed it.
pub fn check_drop(plan: &DropPlan, balance_before: i128, balance_after: i128) -> (r: Result<
    (),
    BackstopError,
>)
    ensures
        r == if !fits_i128(balance_after - balance_before) {
            Err(BackstopError::OverflowError)
        } else if balance_after - balance_before != plan.expected_delta {
            Err(BackstopError::InvalidBackfillFunding)
        } else {
            Ok(())
        },
{
    match balance_after.checked_sub(balance_before) {
        None => Err(BackstopError::OverflowError),
        Some(received) => if received != plan.expected_delta {
            Err(BackstopError::InvalidBackfillFunding)
        } else {
            Ok(())
        },
    }
}

/// An activation at an attested unlock lies within the week that follows the unlock,
/// and the emitter's last distribution between the backfill's end and now.
pub proof fn law_activation_stays_in_its_window(
    record: MigrationRecord,
    state: OngoingEmissionState,
    last_distribution: u64,
    now: u64,
)
    requires
        spec_activation_error(record, state, last_distribution, now) is None,
    ensures
        record.verified_queue_unlock matches Some(unlock) ==> unlock <= now <= unlock
            + ACTIVATION_GRACE_SECONDS,
        record.migration_epoch_start is Some ==> record.verified_queue_unlock is Some,
        spec_activated(record, state, last_distribution, now).backfill_end matches Some(end) && end
            <= last_distribution <= now,
{
}

} // verus!
