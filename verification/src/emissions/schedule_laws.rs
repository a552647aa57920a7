//! How much is distributed, and when.

use vstd::prelude::*;

use super::distributor::{record_of, spec_advance};
use super::distribution_laws::{
    gains_its_part, law_distributions_are_split_seventy_thirty, law_every_entry_gains_its_part,
    law_pending_pools_weigh_their_blnd_usdc_tokens, law_pools_weigh_the_blnd_behind_their_lp_tokens,
    weighed_by_reserves,
};
use super::manager::{
    distributes_ongoing, distributes_pending, spec_distribute_error, spec_report_error,
    EmissionReport,
};
use super::ongoing::{
    accounts_for, allocation_of, spec_weight_change_error, OngoingDistribution,
};
use super::policy::{
    law_split_conserves_the_total, lemma_part_of_value, spec_quote_pool_blnt, spec_quote_user_blnt,
    spec_split, BlntEmissionValues,
};
use super::tier_accounting::{
    backstop_part, law_collected_weights_add_up, law_distinct_pools_have_one_record,
    lemma_shares_within, lemma_weight_prefix, members_after, no_compositions, pool_part,
    pools_well_formed, share_sum, spec_allocate_all, spec_backfill_plan, spec_check_state,
    spec_collect_weights, spec_member_allocation, spec_weight_checkpoint, weight_sum, Allocation,
    BackfillPlan, Baseline, LpCompositions, WeightStreams, WeightedPool, ZoneMember,
};
use super::stream_laws::law_users_earn_by_the_share;
use crate::backstop::pool::PoolBalance;
use crate::backstop::tier::BackstopTier;
use crate::errors::BackstopError;
use crate::math::{is_floor_of, lemma_floor};
use crate::migration::{spec_transition, DistributionTransition, EmitterView, MigrationRecord};
use crate::storage::{
    BackstopEmissionData, OngoingEmissionState, PoolOngoingEmissions, ZoneClock,
};
use crate::Address;

verus! {

/// An emitter's report is believed only where its last distribution has moved on from the
/// backstop's by at least five seconds and not ahead of time, and it has paid one token for
/// every second since its own. Where the token's balance is read, it has grown by exactly
/// that, and by something.
pub proof fn law_emitters_are_held_to_one_token_a_second(
    report: EmissionReport,
    last: u64,
    now: u64,
)
    ensures
        spec_report_error(report, last, now) is None <==> {
            &&& last + 5 <= report.checkpoint <= now
            &&& last <= report.checkpoint_before <= report.checkpoint
            &&& report.emitted == (report.checkpoint - report.checkpoint_before) * 10_000_000
            &&& report.balance_before matches Some(before) ==> report.emitted > 0
                && report.balance_after - before == report.emitted
        },
{
}

/// Whether a state after a distribution of this amount accounts for it: 70% of it, with
/// what the last split left over, was the backstop's and 30% the pools', each rounded down
/// and with what was carried on. What is allocated of each part is counted, and the rest is
/// carried on.
pub open spec fn accounted_for(
    before: OngoingEmissionState,
    after: OngoingEmissionState,
    amount: int,
    backstop: int,
    pool: int,
    allocation: Allocation,
) -> bool {
    let all = amount + before.split_carry;
    &&& is_floor_of(backstop - before.backstop_carry, 7 * all, 10)
    &&& is_floor_of(pool - before.pool_carry, 3 * all, 10)
    &&& after.split_carry == all - (backstop - before.backstop_carry) - (pool
        - before.pool_carry)
    &&& after.backstop_allocated - before.backstop_allocated == allocation.backstop_allocated
    &&& after.backstop_carry == backstop - allocation.backstop_allocated
    &&& after.pool_allocated - before.pool_allocated == allocation.pool_allocated
    &&& after.pool_carry == pool - allocation.pool_allocated
    &&& after.backstop_claimed == before.backstop_claimed
    &&& after.total_distributed - before.total_distributed == amount
    &&& allocation.distributed == amount
    &&& 0 <= allocation.backstop_allocated <= backstop
    &&& 0 <= allocation.pool_allocated <= pool
}

proof fn lemma_accounted_for(
    state: OngoingEmissionState,
    amount: int,
    pools: Seq<WeightedPool>,
    total: int,
    after: Seq<ZoneMember>,
    baseline: Baseline,
)
    requires
        state.valid(),
        state.conserves(),
        amount >= 0,
        state.total_distributed + amount <= i128::MAX,
        pools_well_formed(pools),
        weight_sum(pools) == total,
        members_after(
            after,
            pools,
            backstop_part(state, amount),
            pool_part(state, amount),
            total,
            baseline,
        ),
    ensures
        ({
            let backstop = backstop_part(state, amount);
            let pool = pool_part(state, amount);
            let all = amount + state.split_carry;
            &&& 0 <= share_sum(pools, backstop, total) <= backstop <= i128::MAX
            &&& 0 <= share_sum(pools, pool, total) <= pool <= i128::MAX
            &&& state.backstop_allocated + share_sum(pools, backstop, total) <= i128::MAX
            &&& state.pool_allocated + share_sum(pools, pool, total) <= i128::MAX
            &&& is_floor_of(backstop - state.backstop_carry, 7 * all, 10)
            &&& is_floor_of(pool - state.pool_carry, 3 * all, 10)
            &&& 0 <= spec_split(all).2 <= 1
            &&& spec_split(all).2 == all - (backstop - state.backstop_carry) - (pool
                - state.pool_carry)
            &&& after.len() == pools.len()
            &&& forall|i: int|
                0 <= i < pools.len() ==> #[trigger] gains_its_part(
                    pools,
                    after,
                    backstop,
                    pool,
                    total,
                    baseline,
                    i,
                )
        }),
{
    let backstop = backstop_part(state, amount);
    let pool = pool_part(state, amount);
    let all = amount + state.split_carry;
    law_split_conserves_the_total(all);
    law_distributions_are_split_seventy_thirty(state, amount);
    lemma_shares_within(pools, backstop, total);
    lemma_shares_within(pools, pool, total);
    assert forall|i: int| 0 <= i < pools.len() implies (#[trigger] pools[i]).state.valid() && 0
        <= pools[i].blnd_usdc && 0 <= pools[i].blnd_xlm && pools[i].blnd_usdc + pools[i].blnd_xlm
        <= total by {
        assert(pools[i].well_formed());
        lemma_weight_prefix(pools, i);
    }
    law_every_entry_gains_its_part(pools, after, backstop, pool, total, baseline);
}

/// An ongoing distribution pays out one token for every second between the backstop's last
/// distribution and the emitter's. Every pool of the zone gains its part by the BLND behind
/// its LP tokens, what is not allocated is carried on, and the next distribution counts
/// from the emitter's checkpoint.
pub proof fn law_distributions_pay_one_token_a_second(
    state: OngoingEmissionState,
    clock: ZoneClock,
    members: Seq<ZoneMember>,
    lp: LpCompositions,
    report: EmissionReport,
    now: u64,
    state_after: OngoingEmissionState,
    clock_after: ZoneClock,
    baseline: Baseline,
    allocation: Allocation,
)
    requires
        state.conserves(),
        state.last_distribution is Some,
        distributes_ongoing(
            state,
            clock,
            members,
            lp,
            report,
            now,
            state_after,
            clock_after,
            baseline,
            Ok(allocation),
        ),
    ensures
        ({
            let amount = (report.checkpoint - state.last_distribution->Some_0) * 10_000_000;
            let backstop = allocation.backstop_allocated + state_after.backstop_carry;
            let pool = allocation.pool_allocated + state_after.pool_carry;
            let (pools, total) = spec_collect_weights(members, true, lp)->Ok_0;
            &&& report.is_current_backstop
            &&& members.len() > 0
            &&& spec_report_error(report, state.last_distribution->Some_0, now) is None
            &&& accounted_for(state, state_after, amount, backstop, pool, allocation)
            &&& state_after.last_distribution == Some(report.checkpoint)
            &&& clock_after.checkpoint == Some(report.checkpoint)
            &&& clock_after.started
            &&& pools.len() == members.len()
            &&& allocation.members@.len() == members.len()
            &&& allocation.eligible_blnd == total
            &&& forall|i: int|
                0 <= i < members.len() ==> weighed_by_reserves(#[trigger] pools[i], members[i], lp)
            &&& forall|i: int|
                0 <= i < members.len() ==> #[trigger] gains_its_part(
                    pools,
                    allocation.members@,
                    backstop,
                    pool,
                    total as int,
                    baseline,
                    i,
                )
        }),
{
    let (pools, total) = spec_collect_weights(members, true, lp)->Ok_0;
    let amount = (report.checkpoint - state.last_distribution->Some_0) * 10_000_000;
    assert(spec_distribute_error(state, members, lp, report, now) is None);
    law_pools_weigh_the_blnd_behind_their_lp_tokens(members, lp);
    law_collected_weights_add_up(members, true, lp);
    lemma_accounted_for(state, amount, pools, total as int, allocation.members@, baseline);
}

/// Backfill distributes one token for every second since the last, as far as ten million
/// tokens in all allow, and nothing while no pool has any weight.
pub proof fn law_backfill_pays_one_token_a_second(
    state: OngoingEmissionState,
    checkpoint: u64,
    members: Seq<ZoneMember>,
    scheduled: i128,
)
    ensures
        spec_backfill_plan(true, state, checkpoint, members, scheduled) == Err::<
            BackfillPlan,
            BackstopError,
        >(BackstopError::AlreadyFinalized),
        spec_backfill_plan(false, state, checkpoint, members, scheduled) matches Ok(plan) ==> {
            let last = state.last_distribution->Some_0;
            let weights = spec_collect_weights(members, false, no_compositions());
            &&& state.last_distribution is Some
            &&& last <= checkpoint
            &&& weights is Ok
            &&& plan is Advance <==> weights->Ok_0.1 == 0
            &&& plan matches BackfillPlan::Distribute(amount) ==> {
                &&& 0 <= amount <= (checkpoint - last) * 10_000_000
                &&& scheduled + amount <= 100_000_000_000_000
                &&& amount == (checkpoint - last) * 10_000_000 || scheduled + amount
                    == 100_000_000_000_000
            }
        },
        state.valid() && (state.last_distribution matches Some(last) && last <= checkpoint) && 0
            <= scheduled <= 100_000_000_000_000 && spec_collect_weights(
            members,
            false,
            no_compositions(),
        ) is Ok ==> spec_backfill_plan(false, state, checkpoint, members, scheduled) is Ok,
{
}

/// A backfill distribution pays its amount out by the pools' BLND:USDC LP tokens alone, and
/// schedules it. Where no pool has weight, only the time moves on. Where the emitter has
/// switched, nothing is distributed, and ongoing emissions count from the emitter's last
/// distribution.
pub proof fn law_backfill_is_scheduled_as_it_is_paid(
    record: MigrationRecord,
    state: OngoingEmissionState,
    clock: ZoneClock,
    emitter: EmitterView,
    candidate: Address,
    blnt_xlm_token: Address,
    members: Seq<ZoneMember>,
    now: u64,
    record_after: MigrationRecord,
    state_after: OngoingEmissionState,
    clock_after: ZoneClock,
    baseline: Baseline,
    allocation: Allocation,
)
    requires
        state.conserves(),
        distributes_pending(
            record,
            state,
            clock,
            emitter,
            candidate,
            blnt_xlm_token,
            members,
            now,
            record_after,
            state_after,
            clock_after,
            baseline,
            Ok(allocation),
        ),
    ensures
        ({
            let amount = allocation.distributed;
            let opened = if record.migration_epoch_start is Some || emitter.is_current_backstop {
                state
            } else {
                OngoingEmissionState::spec_empty_at(now)
            };
            let backstop = allocation.backstop_allocated + state_after.backstop_carry;
            let pool = allocation.pool_allocated + state_after.pool_carry;
            let weights = spec_collect_weights(members, false, no_compositions());
            let (pools, total) = weights->Ok_0;
            let checkpoint = if emitter.is_current_backstop {
                emitter.last_distribution
            } else {
                now
            };
            &&& record_after.scheduled_backfill - record.scheduled_backfill == amount
            &&& state_after.last_distribution == Some(checkpoint)
            &&& clock_after.checkpoint == Some(checkpoint)
            &&& clock_after.started
            &&& record_after.activated_at == if emitter.is_current_backstop {
                Some(now)
            } else {
                None
            }
            &&& emitter.is_current_backstop ==> amount == 0
            &&& !emitter.is_current_backstop ==> {
                let last = opened.last_distribution->Some_0;
                &&& opened.last_distribution is Some
                &&& weights is Ok
                &&& 0 <= amount <= (now - last) * 10_000_000
                &&& total == 0 ==> amount == 0
                &&& total > 0 ==> {
                    &&& record_after.scheduled_backfill <= 100_000_000_000_000
                    &&& amount == (now - last) * 10_000_000 || record_after.scheduled_backfill
                        == 100_000_000_000_000
                    &&& accounted_for(
                        opened,
                        state_after,
                        amount as int,
                        backstop,
                        pool,
                        allocation,
                    )
                    &&& pools.len() == members.len()
                    &&& allocation.members@.len() == members.len()
                    &&& forall|i: int|
                        0 <= i < members.len() ==> (#[trigger] pools[i]).blnd_usdc
                            == members[i].state.active_blnd_usdc && pools[i].blnd_xlm == 0
                    &&& forall|i: int|
                        0 <= i < members.len() ==> #[trigger] gains_its_part(
                            pools,
                            allocation.members@,
                            backstop,
                            pool,
                            total as int,
                            baseline,
                            i,
                        )
                }
            }
            &&& amount == 0 && (emitter.is_current_backstop || total == 0) ==> {
                &&& allocation.members@ == members
                &&& allocation.backstop_allocated == 0
                &&& allocation.pool_allocated == 0
                &&& state_after.total_distributed == opened.total_distributed
                &&& state_after.backstop_carry == opened.backstop_carry
                &&& state_after.pool_carry == opened.pool_carry
                &&& state_after.split_carry == opened.split_carry
            }
        }),
{
    let step = spec_transition(record, state, clock, emitter, candidate, blnt_xlm_token, now);
    if let Ok((DistributionTransition::Backfill(checkpoint), next, opened, _)) = step {
        law_collected_weights_add_up(members, false, no_compositions());
        law_pending_pools_weigh_their_blnd_usdc_tokens(members, no_compositions());
        let (pools, total) = spec_collect_weights(members, false, no_compositions())->Ok_0;
        if let Ok(BackfillPlan::Distribute(amount)) = spec_backfill_plan(
            false,
            opened,
            checkpoint,
            members,
            next.scheduled_backfill,
        ) {
            lemma_accounted_for(
                opened,
                amount as int,
                pools,
                total as int,
                allocation.members@,
                baseline,
            );
        }
    }
}

/// A change of weight is free for USDC, for pools outside the zone, for BLND:XLM before
/// the migration is active, and before the first distribution. Otherwise the zone's last
/// distribution is at most five seconds old.
pub proof fn law_weights_change_only_at_a_checkpoint(
    tier: BackstopTier,
    is_active: bool,
    is_current_backstop: bool,
    is_member: bool,
    state: OngoingEmissionState,
    clock: ZoneClock,
    now: u64,
)
    requires
        state.valid(),
    ensures
        spec_weight_change_error(
            tier,
            is_active,
            is_current_backstop,
            is_member,
            state,
            clock,
            now,
        ) is None <==> {
            ||| tier == BackstopTier::Usdc
            ||| {
                &&& is_active || !is_current_backstop
                &&& {
                    ||| !is_member
                    ||| tier == BackstopTier::BlndXlm && !is_active
                    ||| state.last_distribution is None
                    ||| clock.checkpoint matches Some(checkpoint) && checkpoint <= now && now
                        <= checkpoint + 5
                }
            }
        },
{
}

/// A member of the zone is quoted its part of a distribution by weight, rounded down, and a
/// pool outside it nothing.
pub proof fn law_pools_are_quoted_by_weight(
    distribution: i128,
    values: BlntEmissionValues,
    total_reward_zone_blnt: i128,
    reward_zone_member: bool,
)
    ensures
        ({
            let weight = values.blnt_usdc + values.blnt_xlm;
            let r = spec_quote_pool_blnt(
                distribution,
                values,
                total_reward_zone_blnt,
                reward_zone_member,
            );
            &&& r is Ok <==> distribution >= 0 && total_reward_zone_blnt >= 0 && values.blnt_usdc
                >= 0 && values.blnt_xlm >= 0 && weight <= i128::MAX && (reward_zone_member
                ==> weight <= total_reward_zone_blnt)
            &&& r matches Ok(quote) ==> {
                &&& quote.eligible_blnt == weight
                &&& if reward_zone_member && weight > 0 {
                    is_floor_of(
                        quote.allocation as int,
                        distribution * weight,
                        total_reward_zone_blnt as int,
                    )
                } else {
                    quote.allocation == 0
                }
            }
        }),
{
    let weight = values.blnt_usdc + values.blnt_xlm;
    if distribution >= 0 && values.blnt_usdc >= 0 && values.blnt_xlm >= 0 && 0 < weight
        <= total_reward_zone_blnt {
        lemma_floor(distribution * weight, total_reward_zone_blnt as int);
        lemma_part_of_value(distribution as int, weight, total_reward_zone_blnt as int);
    }
}

/// A user is quoted a part of the pool's distribution by weight, rounded down.
pub proof fn law_users_are_quoted_by_weight(
    pool_distribution: i128,
    values: BlntEmissionValues,
    pool_eligible_blnt: i128,
)
    ensures
        ({
            let weight = values.blnt_usdc + values.blnt_xlm;
            let r = spec_quote_user_blnt(pool_distribution, values, pool_eligible_blnt);
            &&& r is Ok <==> pool_distribution >= 0 && pool_eligible_blnt >= 0 && values.blnt_usdc
                >= 0 && values.blnt_xlm >= 0 && weight <= pool_eligible_blnt
            &&& r matches Ok(quote) ==> {
                &&& quote.eligible_blnt == weight
                &&& if weight > 0 {
                    is_floor_of(
                        quote.allocation as int,
                        pool_distribution * weight,
                        pool_eligible_blnt as int,
                    )
                } else {
                    quote.allocation == 0
                }
            }
        }),
{
    let weight = values.blnt_usdc + values.blnt_xlm;
    if pool_distribution >= 0 && values.blnt_usdc >= 0 && values.blnt_xlm >= 0 && 0 < weight
        <= pool_eligible_blnt {
        lemma_floor(pool_distribution * weight, pool_eligible_blnt as int);
        lemma_part_of_value(pool_distribution as int, weight, pool_eligible_blnt as int);
    }
}

/// The account of a distribution holds what was allocated under its own names.
pub proof fn law_accounts_hold_the_allocation(
    account: OngoingDistribution,
    after: Vec<ZoneMember>,
)
    ensures
        ({
            let allocation = allocation_of(account, after);
            &&& allocation.distributed == account.distributed
            &&& allocation.eligible_blnd == account.eligible_blnd
            &&& allocation.backstop_allocated == account.backstop_allocated
            &&& allocation.pool_allocated == account.pool_allocated
            &&& allocation.members == after
        }),
{
}

/// An account of a distribution holds its time, its amount, the zone's weight, what was
/// allocated of each part, and what each leaves over.
pub proof fn law_accounts_hold_what_is_left_over(
    account: OngoingDistribution,
    state: OngoingEmissionState,
    checkpoint: u64,
    distributed: int,
    eligible_blnd: int,
    backstop_allocated: int,
    pool_allocated: int,
)
    requires
        accounts_for(
            account,
            state,
            checkpoint,
            distributed,
            eligible_blnd,
            backstop_allocated,
            pool_allocated,
        ),
    ensures
        account.checkpoint == checkpoint,
        account.distributed == distributed,
        account.eligible_blnd == eligible_blnd,
        account.backstop_allocated == backstop_allocated,
        account.pool_allocated == pool_allocated,
        account.backstop_carry == state.backstop_carry,
        account.pool_carry == state.pool_carry,
        account.split_carry == state.split_carry,
{
}

/// A pool's record is valid where none of its amounts is negative.
pub proof fn law_pool_records_hold_no_debt(state: PoolOngoingEmissions)
    ensures
        state.valid() <==> state.accrued_pool >= 0 && state.active_blnd_usdc >= 0
            && state.active_blnd_xlm >= 0 && state.backstop_tier_carry >= 0
            && state.pending_blnd_usdc >= 0 && state.pending_blnd_xlm >= 0,
{
}

/// Whether a pool's record has room for these parts of a distribution.
pub open spec fn has_room(record: PoolOngoingEmissions, backstop: int, pool: int) -> bool {
    &&& record.valid()
    &&& record.backstop_tier_carry + backstop + record.pending_blnd_usdc <= i128::MAX
    &&& record.backstop_tier_carry + backstop + record.pending_blnd_xlm <= i128::MAX
    &&& record.accrued_pool + pool <= i128::MAX
}

proof fn lemma_allocated(pool: WeightedPool, backstop: int, pools: int, total: int)
    requires
        has_room(pool.state, backstop, pools),
        0 <= pool.blnd_usdc,
        0 <= pool.blnd_xlm,
        pool.blnd_usdc + pool.blnd_xlm <= total,
        backstop >= 0,
        pools >= 0,
    ensures
        spec_member_allocation(pool, backstop, pools, total) is Some,
{
    let weight = pool.blnd_usdc + pool.blnd_xlm;
    if total != 0 {
        lemma_part_of_value(backstop, weight, total);
        lemma_part_of_value(pools, weight, total);
        let kept = backstop * weight / total + pool.state.backstop_tier_carry;
        if weight > 0 {
            lemma_part_of_value(kept, pool.blnd_usdc as int, weight);
            lemma_part_of_value(kept, pool.blnd_xlm as int, weight);
        }
    }
}

proof fn lemma_all_allocated(pools: Seq<WeightedPool>, backstop: int, pool: int, total: int)
    requires
        forall|i: int|
            0 <= i < pools.len() ==> has_room((#[trigger] pools[i]).state, backstop, pool) && 0
                <= pools[i].blnd_usdc && 0 <= pools[i].blnd_xlm && pools[i].blnd_usdc
                + pools[i].blnd_xlm <= total,
        backstop >= 0,
        pool >= 0,
    ensures
        spec_allocate_all(pools, backstop, pool, total, Baseline::Weighed) is Some,
    decreases pools.len(),
{
    if pools.len() > 0 {
        let init = pools.drop_last();
        assert(forall|i: int| 0 <= i < init.len() ==> #[trigger] init[i] == pools[i]);
        lemma_all_allocated(init, backstop, pool, total);
        lemma_allocated(pools[pools.len() - 1], backstop, pool, total);
    }
}

/// A distribution is owed to a zone of different pools wherever the emitter's report is
/// believed, their LP tokens can be weighed, and their records have room.
pub proof fn law_distributions_are_owed(
    state: OngoingEmissionState,
    clock: ZoneClock,
    members: Seq<ZoneMember>,
    lp: LpCompositions,
    report: EmissionReport,
    now: u64,
    state_after: OngoingEmissionState,
    clock_after: ZoneClock,
    baseline: Baseline,
    r: Result<Allocation, BackstopError>,
)
    requires
        state.valid(),
        state.conserves(),
        state.last_distribution is Some,
        report.is_current_backstop,
        members.len() > 0,
        forall|i: int, j: int|
            0 <= i < j < members.len() ==> (#[trigger] members[i]).pool != (
            #[trigger] members[j]).pool,
        spec_collect_weights(members, true, lp) is Ok,
        spec_report_error(report, state.last_distribution->Some_0, now) is None,
        ({
            let amount = (report.checkpoint - state.last_distribution->Some_0) * 10_000_000;
            &&& state.total_distributed + amount <= i128::MAX
            &&& forall|i: int|
                0 <= i < members.len() ==> has_room(
                    (#[trigger] members[i]).state,
                    amount + state.split_carry + state.backstop_carry,
                    amount + state.split_carry + state.pool_carry,
                )
        }),
        distributes_ongoing(
            state,
            clock,
            members,
            lp,
            report,
            now,
            state_after,
            clock_after,
            baseline,
            r,
        ),
    ensures
        r is Ok,
{
    let amount = (report.checkpoint - state.last_distribution->Some_0) * 10_000_000;
    let all = amount + state.split_carry;
    let backstop = backstop_part(state, amount);
    let pool = pool_part(state, amount);
    let (pools, total) = spec_collect_weights(members, true, lp)->Ok_0;
    law_collected_weights_add_up(members, true, lp);
    law_split_conserves_the_total(all);
    assert forall|i: int| 0 <= i < pools.len() implies has_room(
        (#[trigger] pools[i]).state,
        backstop,
        pool,
    ) && 0 <= pools[i].blnd_usdc && 0 <= pools[i].blnd_xlm && pools[i].blnd_usdc
        + pools[i].blnd_xlm <= total by {
        assert(pools[i].state == members[i].state);
        assert(pools[i].well_formed());
        lemma_weight_prefix(pools, i);
    }
    lemma_all_allocated(pools, backstop, pool, total as int);
    assert forall|i: int, j: int| 0 <= i < j < pools.len() implies (#[trigger] pools[i]).pool != (
    #[trigger] pools[j]).pool by {
        assert(members[i].pool != members[j].pool);
        assert(pools[i].pool == members[i].pool && pools[j].pool == members[j].pool);
    }
    law_distinct_pools_have_one_record(pools, backstop, pool, total as int);
}

/// A record of all emissions is kept only where no amount is negative, no more is claimed
/// than allocated, and what is allocated or carried on is all that was distributed.
pub proof fn law_records_account_for_every_emission(state: OngoingEmissionState)
    ensures
        spec_check_state(state) is Ok <==> {
            &&& state.backstop_allocated >= 0 && state.backstop_carry >= 0
            &&& state.pool_allocated >= 0 && state.pool_carry >= 0 && state.split_carry >= 0
            &&& 0 <= state.backstop_claimed <= state.backstop_allocated
            &&& state.backstop_allocated + state.backstop_carry + state.pool_allocated
                + state.pool_carry + state.split_carry == state.total_distributed
        },
{
}

/// Before a weight that earns emissions changes, the stream comes up to date and the user
/// earns what the shares held until then have earned. Other weights change freely.
pub proof fn law_earnings_are_counted_before_a_weight_changes(
    change: Result<bool, BackstopError>,
    streams: WeightStreams,
    pool: PoolBalance,
    user_shares: i128,
    now: u64,
)
    requires
        record_of(streams.user).well_formed(),
    ensures
        change is Err ==> spec_weight_checkpoint(change, streams, pool, user_shares, now) is Err,
        spec_weight_checkpoint(change, streams, pool, user_shares, now) matches Ok(next) ==> {
            if change->Ok_0 && streams.emission is Some {
                let before = record_of(streams.user);
                let index = next.emission->Some_0.index;
                let earned = user_shares * (index - before.index) + before.carry;
                &&& next.emission is Some
                &&& next.user is Some
                &&& spec_advance(streams.emission->Some_0, pool, now) == Ok::<
                    BackstopEmissionData,
                    BackstopError,
                >(next.emission->Some_0)
                &&& next.user->Some_0.index == index
                &&& is_floor_of(
                    next.user->Some_0.accrued - before.accrued,
                    earned,
                    100_000_000_000_000,
                )
                &&& next.user->Some_0.carry == earned - (next.user->Some_0.accrued
                    - before.accrued) * 100_000_000_000_000
            } else {
                next.emission == streams.emission && next.user == streams.user
            }
        },
{
    if let Ok(next) = spec_weight_checkpoint(change, streams, pool, user_shares, now) {
        if change->Ok_0 && streams.emission is Some {
            law_users_earn_by_the_share(
                record_of(streams.user),
                user_shares,
                next.emission->Some_0.index,
            );
        }
    }
}

} // verus!
