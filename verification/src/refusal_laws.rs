//! With which error a request is refused.

use vstd::prelude::*;

use crate::backstop::clawback::{
    law_clawbacks_burn_the_fewest_shares, lemma_shares_for_tokens_bounds, spec_clawback_error,
    spec_shares_for_tokens,
};
use crate::backstop::deposit::spec_deposit_error;
use crate::backstop::fund_management::{spec_donate_error, spec_draw_error};
use crate::backstop::pool::{BackstopAsset, PoolBalance};
use crate::backstop::tier::BackstopTier;
use crate::backstop::user::{
    law_dequeue_takes_newest_first, law_matured_shares_are_owed, law_withdraw_takes_oldest_first,
    queue_well_formed, queued_total, spec_matured, Q4W,
};
use crate::backstop::withdrawal::{
    spec_dequeue_error, spec_queue_error, spec_withdraw_error, QueueLengths,
};
use crate::emissions::claim::{spec_claim_request_error, spec_record_claim_error};
use crate::emissions::manager::{
    spec_distribute_error, spec_gulp, spec_report_error, EmissionReport, GulpResult, PoolStreams,
};
use crate::emissions::reward_zone::{
    spec_add_error, spec_remove_error, Departing, Entrant, Leaver,
};
use crate::emissions::tier_accounting::{LpCompositions, WeightStreams, ZoneMember};
use crate::emissions::zone_laws::within_the_hour;
use crate::emitter::conversion::{spec_swap_error, SwapTerms};
use crate::emitter::errors::EmitterError;
use crate::errors::BackstopError;
use crate::math::{is_ceil_of, lemma_ceil_is_unique};
use crate::migration::{
    spec_activation_error, spec_backfill_error, spec_drop_error, MigrationRecord,
};
use crate::storage::{OngoingEmissionState, ZoneClock};
use crate::Address;

verus! {

/// A deposit is refused, in this order, for a negative amount, for a depositor that is the
/// pool or the backstop, by the pool's registration, by its streams, and for buying nothing.
pub proof fn law_refused_deposits(
    pool: PoolBalance,
    from: Address,
    pool_address: Address,
    backstop: Address,
    registration: Result<(), BackstopError>,
    counted: Result<WeightStreams, BackstopError>,
    amount: i128,
)
    ensures
        ({
            let refused = spec_deposit_error(
                pool,
                from,
                pool_address,
                backstop,
                registration,
                counted,
                amount,
            );
            let own = from == pool_address || from == backstop;
            &&& amount < 0 ==> refused == Some(BackstopError::NegativeAmountError)
            &&& amount >= 0 && own ==> refused == Some(BackstopError::BadRequest)
            &&& amount >= 0 && !own && registration is Err ==> refused == Some(registration->Err_0)
            &&& amount >= 0 && !own && registration is Ok && counted is Err ==> refused == Some(
                counted->Err_0,
            )
            &&& amount >= 0 && !own && registration is Ok && counted is Ok && refused is Some
                ==> refused == Some(BackstopError::InvalidShareMintAmount)
        }),
{
}

/// Queueing is refused, in this order, for a negative amount, for a full queue, and for
/// shares that the user does not have.
pub proof fn law_refused_queueing(shares: i128, lengths: QueueLengths, amount: i128)
    ensures
        ({
            let refused = spec_queue_error(shares, lengths, amount);
            let full = lengths.blnd_usdc + lengths.blnd_xlm + lengths.usdc >= 20;
            &&& amount < 0 ==> refused == Some(BackstopError::NegativeAmountError)
            &&& amount >= 0 && full ==> refused == Some(BackstopError::TooManyQ4WEntries)
            &&& amount >= 0 && !full && shares < amount ==> refused == Some(
                BackstopError::BalanceError,
            )
        }),
{
}

/// Taking shares back is refused, in this order, for a negative amount, for more than the
/// user has queued, by the streams, and for more than the pool has queued.
pub proof fn law_refused_dequeueing(
    pool: PoolBalance,
    q4w: Seq<Q4W>,
    counted: Result<WeightStreams, BackstopError>,
    amount: i128,
)
    requires
        queue_well_formed(q4w),
    ensures
        ({
            let refused = spec_dequeue_error(pool, q4w, counted, amount);
            let queued = amount <= queued_total(q4w);
            &&& amount < 0 ==> refused == Some(BackstopError::NegativeAmountError)
            &&& amount >= 0 && !queued ==> refused == Some(BackstopError::BalanceError)
            &&& amount >= 0 && queued && counted is Err ==> refused == Some(counted->Err_0)
            &&& amount >= 0 && queued && counted is Ok && amount > pool.q4w ==> refused == Some(
                BackstopError::InsufficientFunds,
            )
        }),
{
    if amount >= 0 {
        law_dequeue_takes_newest_first(q4w, amount as int);
    }
}

/// A withdrawal is refused, in this order, for a negative amount, for bad debt, for shares
/// that are not queued or have not matured, for shares that stand for no token, by the
/// streams, and for more than the pool has queued.
pub proof fn law_refused_withdrawals(
    pool: PoolBalance,
    q4w: Seq<Q4W>,
    has_liabilities: bool,
    counted: Result<WeightStreams, BackstopError>,
    amount: i128,
    now: u64,
)
    requires
        queue_well_formed(q4w),
    ensures
        ({
            let refused = spec_withdraw_error(pool, q4w, has_liabilities, counted, amount, now);
            &&& amount < 0 ==> refused == Some(BackstopError::NegativeAmountError)
            &&& amount >= 0 && has_liabilities ==> refused == Some(BackstopError::BadDebtExists)
            &&& amount > 0 && !has_liabilities && amount > spec_matured(q4w, now) ==> {
                ||| refused == Some(BackstopError::BalanceError) && amount > queued_total(q4w)
                ||| refused == Some(BackstopError::NotExpired) && exists|i: int|
                    0 <= i < q4w.len() && (#[trigger] q4w[i]).exp > now
            }
            &&& 0 < amount <= spec_matured(q4w, now) && !has_liabilities ==> {
                let worthless = pool.tokens_for(amount as int) == 0 && pool.tokens != 0;
                &&& worthless ==> refused == Some(BackstopError::InvalidTokenWithdrawAmount)
                &&& !worthless && counted is Err ==> refused == Some(counted->Err_0)
                &&& !worthless && counted is Ok && amount > pool.q4w ==> refused == Some(
                    BackstopError::InsufficientFunds,
                )
            }
        }),
{
    if amount > 0 {
        law_matured_shares_are_owed(q4w, amount as int, now);
        law_withdraw_takes_oldest_first(q4w, amount as int, now);
    }
}

/// A draw is refused, in this order, for a negative amount, while the weight may not
/// change, and for more than the tier holds.
pub proof fn law_refused_draws(
    pool: PoolBalance,
    change: Result<bool, BackstopError>,
    amount: i128,
)
    ensures
        ({
            let refused = spec_draw_error(pool, change, amount);
            &&& amount < 0 ==> refused == Some(BackstopError::NegativeAmountError)
            &&& amount > 0 && change is Err ==> refused == Some(change->Err_0)
            &&& amount > pool.tokens && amount > 0 && change is Ok ==> refused == Some(
                BackstopError::InsufficientFunds,
            )
        }),
{
}

/// A donation is refused, in this order, for a negative amount, for a donor that is the
/// pool or the backstop, while the weight may not change, and by the pool's registration.
pub proof fn law_refused_donations(
    from: Address,
    pool_address: Address,
    backstop: Address,
    change: Result<bool, BackstopError>,
    registration: Result<(), BackstopError>,
    asset: BackstopAsset,
    amount: i128,
    carry: i128,
    pending: i128,
)
    ensures
        ({
            let refused = spec_donate_error(
                from,
                pool_address,
                backstop,
                change,
                registration,
                asset,
                amount,
                carry,
                pending,
            );
            let own = from == pool_address || from == backstop;
            &&& amount < 0 ==> refused == Some(BackstopError::NegativeAmountError)
            &&& amount >= 0 && own ==> refused == Some(BackstopError::BadRequest)
            &&& amount >= 0 && !own && change is Err ==> refused == Some(change->Err_0)
            &&& amount >= 0 && !own && change is Ok && registration is Err ==> refused == Some(
                registration->Err_0,
            )
            &&& amount >= 0 && !own && change is Ok && registration is Ok && refused is Some
                ==> refused == Some(BackstopError::OverflowError)
        }),
{
}

/// A clawback is refused, in this order, as a bad request, for more than the tier holds,
/// for shares that the user does not have, by the streams, and for tokens that the backstop
/// does not have.
pub proof fn law_refused_clawbacks(
    pool: PoolBalance,
    shares: i128,
    q4w: Seq<Q4W>,
    from: Address,
    pool_address: Address,
    backstop: Address,
    counted: Result<WeightStreams, BackstopError>,
    amount: i128,
    held: i128,
    to_burn: int,
)
    requires
        pool.well_formed(),
        shares >= 0,
        queue_well_formed(q4w),
        0 <= queued_total(q4w),
        shares + queued_total(q4w) <= i128::MAX,
        0 < amount <= pool.tokens && pool.shares > 0 ==> is_ceil_of(
            to_burn,
            amount * pool.shares,
            pool.tokens as int,
        ),
    ensures
        ({
            let refused = spec_clawback_error(
                pool,
                shares,
                q4w,
                from,
                pool_address,
                backstop,
                counted,
                amount,
                held,
            );
            let bad = amount <= 0 || from == pool_address || from == backstop;
            let beyond = amount > pool.tokens || pool.shares <= 0 || to_burn > shares
                + queued_total(q4w);
            &&& bad ==> refused == Some(BackstopError::BadRequest)
            &&& !bad && beyond ==> refused == Some(BackstopError::BalanceError)
            &&& !bad && !beyond && counted is Err ==> refused == Some(counted->Err_0)
            &&& !bad && !beyond && counted is Ok && held < amount ==> refused == Some(
                BackstopError::BalanceError,
            )
        }),
{
    if 0 < amount <= pool.tokens && pool.shares > 0 {
        law_clawbacks_burn_the_fewest_shares(pool, amount as int);
        lemma_ceil_is_unique(to_burn, amount * pool.shares, pool.tokens as int);
        lemma_ceil_is_unique(
            spec_shares_for_tokens(pool, amount as int),
            amount * pool.shares,
            pool.tokens as int,
        );
        lemma_shares_for_tokens_bounds(pool, amount as int);
    }
}

/// A gulp is refused first to what is no pool, then within a day of the last, then for a
/// record that is not valid.
pub proof fn law_refused_gulps(
    is_pool: bool,
    streams: PoolStreams,
    blnd_usdc: PoolBalance,
    blnd_xlm: PoolBalance,
    allowance: i128,
    sequence: u32,
    ledgers: u32,
    now: u64,
)
    ensures
        ({
            let r = spec_gulp(
                is_pool,
                streams,
                blnd_usdc,
                blnd_xlm,
                allowance,
                sequence,
                ledgers,
                now,
            );
            let early = streams.last_gulp is Some && now < streams.last_gulp->Some_0 + 86_400;
            &&& !is_pool ==> r == Err::<(GulpResult, PoolStreams), BackstopError>(
                BackstopError::NotPool,
            )
            &&& is_pool && early ==> r == Err::<(GulpResult, PoolStreams), BackstopError>(
                BackstopError::PoolEmissionGulpTooSoon,
            )
            &&& is_pool && !early && !streams.state.valid() ==> r == Err::<
                (GulpResult, PoolStreams),
                BackstopError,
            >(BackstopError::InvalidEmissionValue)
        }),
{
}

/// A claim is refused, in this order, while the backfill is not funded, for USDC, for no
/// pool, and for a negative minimum; then where the record does not cover it.
pub proof fn law_refused_claims(
    tier: BackstopTier,
    funding: Result<(), BackstopError>,
    pools: int,
    min_lp_tokens_out: i128,
    state: OngoingEmissionState,
    amount: i128,
)
    ensures
        ({
            let refused = spec_claim_request_error(tier, funding, pools, min_lp_tokens_out);
            &&& funding is Err ==> refused == Some(funding->Err_0)
            &&& funding is Ok && tier == BackstopTier::Usdc ==> refused == Some(
                BackstopError::InvalidEmissionValue,
            )
            &&& funding is Ok && tier != BackstopTier::Usdc && pools == 0 ==> refused == Some(
                BackstopError::BadRequest,
            )
            &&& funding is Ok && tier != BackstopTier::Usdc && pools != 0 && min_lp_tokens_out < 0
                ==> refused == Some(BackstopError::NegativeAmountError)
            &&& funding is Ok && tier != BackstopTier::Usdc && pools != 0 && min_lp_tokens_out >= 0
                ==> refused is None
        }),
        state.valid() && state.conserves() && amount >= 0 ==> (spec_record_claim_error(
            state,
            amount as int,
        ) is None <==> state.backstop_claimed + amount <= state.backstop_allocated),
{
}

/// A distribution is refused, in this order, while the emitter pays another backstop, to an
/// empty zone, for a record that is not valid, by the weights, and by the report. A report
/// that comes too soon is told so.
pub proof fn law_refused_distributions(
    state: OngoingEmissionState,
    members: Seq<ZoneMember>,
    lp: LpCompositions,
    report: EmissionReport,
    last: u64,
    now: u64,
)
    ensures
        ({
            let refused = spec_distribute_error(state, members, lp, report, now);
            &&& !report.is_current_backstop ==> refused == Some(BackstopError::EmitterDidNotMigrate)
            &&& report.is_current_backstop && members.len() == 0 ==> refused == Some(
                BackstopError::NoEligibleWeight,
            )
            &&& report.is_current_backstop && members.len() > 0 && !state.valid() ==> refused
                == Some(BackstopError::InvalidEmissionValue)
        }),
        ({
            let refused = spec_report_error(report, last, now);
            let early = report.checkpoint < last + 5;
            &&& report.emitted < 0 ==> refused == Some(BackstopError::InvalidOngoingBalance)
            &&& report.emitted >= 0 && report.checkpoint_before <= report.checkpoint && early
                ==> refused == Some(BackstopError::DistributionTooSoon)
            &&& report.emitted >= 0 && !early && refused is Some && report.balance_before is None
                ==> refused == Some(BackstopError::InvalidOngoingBalance)
        }),
{
}

/// An entry into the zone is refused, in this order, while weights stand still, to a member,
/// below the threshold, without weight, without a distribution within the hour, to a full
/// zone without a member to replace, and against one that weighs as much.
pub proof fn law_refused_entries(
    gate: Result<(), BackstopError>,
    zone: Seq<Address>,
    entrant: Entrant,
    leaver: Option<Leaver>,
    needs_checkpoint: bool,
    clock: ZoneClock,
    now: u64,
)
    requires
        zone.len() <= 30,
    ensures
        ({
            let refused = spec_add_error(gate, zone, entrant, leaver, needs_checkpoint, clock, now);
            let fit = !zone.contains(entrant.pool) && entrant.activation is Ok
                && entrant.activation->Ok_0.meets_threshold && entrant.weight is Ok
                && entrant.weight->Ok_0 > 0;
            let due = needs_checkpoint && !within_the_hour(clock, now);
            &&& gate is Err ==> refused == Some(gate->Err_0)
            &&& gate is Ok && zone.contains(entrant.pool) ==> refused == Some(
                BackstopError::InvalidRewardZoneEntry,
            )
            &&& gate is Ok && !zone.contains(entrant.pool) && entrant.activation is Ok
                && entrant.weight is Ok && !fit ==> refused == Some(
                BackstopError::InvalidRewardZoneEntry,
            )
            &&& gate is Ok && fit && due ==> refused == Some(
                BackstopError::DistributionCheckpointRequired,
            )
            &&& gate is Ok && fit && !due && zone.len() == 30 && leaver is None ==> refused == Some(
                BackstopError::RewardZoneFull,
            )
            &&& gate is Ok && fit && !due && zone.len() == 30 && leaver is Some
                && leaver->Some_0.weight is Ok && refused is Some ==> refused == Some(
                BackstopError::InvalidRewardZoneEntry,
            )
        }),
{
}

/// A removal is refused, in this order, while weights stand still, of a pool that is no
/// member, of one that is still worth the threshold, and without a distribution within the
/// hour.
pub proof fn law_refused_removals(
    gate: Result<(), BackstopError>,
    zone: Seq<Address>,
    departing: Departing,
    clock: ZoneClock,
    now: u64,
)
    requires
        zone.len() <= 30,
    ensures
        ({
            let refused = spec_remove_error(gate, zone, departing, clock, now);
            let member = zone.contains(departing.pool);
            let heavy = departing.weight is Ok && departing.weight->Ok_0 > 0;
            &&& gate is Err ==> refused == Some(gate->Err_0)
            &&& gate is Ok && !member ==> refused == Some(BackstopError::InvalidRewardZoneEntry)
            &&& gate is Ok && member && heavy && departing.activation is Ok
                && departing.activation->Ok_0.meets_threshold ==> refused == Some(
                BackstopError::InvalidRewardZoneEntry,
            )
            &&& gate is Ok && member && heavy && departing.activation is Ok
                && !departing.activation->Ok_0.meets_threshold && !within_the_hour(clock, now)
                ==> refused == Some(BackstopError::DistributionCheckpointRequired)
        }),
{
}

/// An activation is refused outside its window, where backfill has begun without an
/// attested unlock, and where the emitter's last distribution does not fit.
pub proof fn law_refused_activations(
    record: MigrationRecord,
    state: OngoingEmissionState,
    last_distribution: u64,
    now: u64,
)
    ensures
        ({
            let refused = spec_activation_error(record, state, last_distribution, now);
            match record.verified_queue_unlock {
                Some(unlock) => {
                    &&& unlock + 604_800 > u64::MAX ==> refused == Some(
                        BackstopError::OverflowError,
                    )
                    &&& unlock + 604_800 <= u64::MAX && (now < unlock || unlock + 604_800 < now)
                        ==> refused == Some(BackstopError::SyncWindowExpired)
                    &&& unlock <= now <= unlock + 604_800 && unlock + 604_800 <= u64::MAX
                        && refused is Some ==> refused == Some(BackstopError::InvalidOngoingBalance)
                },
                None => {
                    &&& record.migration_epoch_start is Some ==> refused == Some(
                        BackstopError::MigrationNotPrepared,
                    )
                    &&& record.migration_epoch_start is None && refused is Some ==> refused == Some(
                        BackstopError::InvalidOngoingBalance,
                    )
                },
            }
        }),
{
}

/// Backfill is refused for a negative amount and beyond its cap, and its drop once it is
/// funded, before the migration is active, and beyond the cap.
pub proof fn law_refused_backfill(
    scheduled: i128,
    amount: i128,
    funded: Option<i128>,
    is_active: bool,
)
    ensures
        amount < 0 ==> spec_backfill_error(scheduled, amount) == Some(
            BackstopError::InvalidEmissionValue,
        ),
        amount >= 0 && 100_000_000_000_000 < scheduled + amount <= i128::MAX
            ==> spec_backfill_error(scheduled, amount) == Some(BackstopError::MaxBackfillEmissions),
        ({
            let refused = spec_drop_error(funded, is_active, scheduled);
            &&& funded is Some ==> refused == Some(BackstopError::BackfillAlreadyFunded)
            &&& funded is None && !is_active ==> refused == Some(BackstopError::MigrationNotActive)
            &&& funded is None && is_active && !(0 <= scheduled <= 100_000_000_000_000)
                ==> refused == Some(BackstopError::InvalidBackfillFunding)
        }),
{
}

/// A conversion is refused, in this order, before the emitter is set up, for no amount,
/// after its window, while one is under way, and between a token and itself.
pub proof fn law_refused_conversions(terms: SwapTerms, amount: i128, now: u64)
    ensures
        ({
            let refused = spec_swap_error(terms, amount, now);
            let open = now < terms.deadline;
            &&& !terms.is_init ==> refused == Some(EmitterError::NotInitialized)
            &&& terms.is_init && amount <= 0 ==> refused == Some(EmitterError::InvalidSwapAmount)
            &&& terms.is_init && amount > 0 && !open ==> refused == Some(
                EmitterError::SwapWindowClosed,
            )
            &&& terms.is_init && amount > 0 && open && terms.locked ==> refused == Some(
                EmitterError::ReentrantSwap,
            )
            &&& terms.is_init && amount > 0 && open && !terms.locked && terms.legacy_blnd
                == terms.blnt ==> refused == Some(EmitterError::InvalidSwapToken)
        }),
{
}

} // verus!
