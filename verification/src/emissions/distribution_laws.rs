//! What a distribution over the reward zone gives to each pool.

use vstd::prelude::*;

use super::policy::{lemma_part_of_value, spec_split};
use super::tier_accounting::{
    backstop_part, current_record, law_tier_allocation_conserves, members_after, pool_part,
    spec_allocate_all, spec_based, spec_collect_weights, spec_member_allocation, spec_weigh_all,
    Baseline, LpCompositions, WeightedPool, ZoneMember,
};
use crate::math::{is_floor_of, lemma_floor, sum_of};
use crate::storage::{OngoingEmissionState, PoolOngoingEmissions};
use crate::Address;

verus! {

/// The BLND behind each pool's active LP tokens.
pub open spec fn weights_of(pools: Seq<WeightedPool>) -> Seq<int> {
    pools.map_values(|pool: WeightedPool| pool.blnd_usdc + pool.blnd_xlm)
}

/// The active BLND:USDC LP tokens of each member.
pub open spec fn blnd_usdc_of(members: Seq<ZoneMember>) -> Seq<int> {
    members.map_values(|member: ZoneMember| member.state.active_blnd_usdc as int)
}

/// The active BLND:XLM LP tokens of each member.
pub open spec fn blnd_xlm_of(members: Seq<ZoneMember>) -> Seq<int> {
    members.map_values(|member: ZoneMember| member.state.active_blnd_xlm as int)
}

/// Whether a member's LP tokens are weighed by the BLND reserve of the Comet pool that
/// issued them, each rounded down.
pub open spec fn weighed_by_reserves(
    pool: WeightedPool,
    member: ZoneMember,
    lp: LpCompositions,
) -> bool {
    &&& pool.pool == member.pool
    &&& pool.state == member.state
    &&& is_floor_of(
        pool.blnd_usdc as int,
        member.state.active_blnd_usdc * lp.blnd_usdc_reserve,
        lp.blnd_usdc_supply as int,
    )
    &&& is_floor_of(
        pool.blnd_xlm as int,
        member.state.active_blnd_xlm * lp.blnd_xlm_reserve,
        lp.blnd_xlm_supply as int,
    )
}

proof fn lemma_weigh_by_reserves(members: Seq<ZoneMember>, lp: LpCompositions)
    requires
        lp.blnd_usdc_supply > 0,
        lp.blnd_usdc_reserve >= 0,
        lp.blnd_xlm_supply > 0,
        lp.blnd_xlm_reserve >= 0,
    ensures
        spec_weigh_all(members, Some(lp)) matches Ok((pools, totals)) ==> {
            &&& pools.len() == members.len()
            &&& forall|i: int|
                0 <= i < members.len() ==> weighed_by_reserves(#[trigger] pools[i], members[i], lp)
            &&& totals.eligible == sum_of(weights_of(pools))
            &&& totals.blnd_usdc == sum_of(blnd_usdc_of(members))
            &&& totals.blnd_xlm == sum_of(blnd_xlm_of(members))
        },
    decreases members.len(),
{
    if members.len() > 0 {
        let init = members.drop_last();
        lemma_weigh_by_reserves(init, lp);
        if let Ok((pools, totals)) = spec_weigh_all(members, Some(lp)) {
            let (before, _) = spec_weigh_all(init, Some(lp))->Ok_0;
            let state = members.last().state;
            let usdc = state.active_blnd_usdc as int;
            let xlm = state.active_blnd_xlm as int;
            lemma_part_of_value(
                lp.blnd_usdc_reserve as int,
                usdc,
                lp.blnd_usdc_supply as int,
            );
            lemma_part_of_value(lp.blnd_xlm_reserve as int, xlm, lp.blnd_xlm_supply as int);
            assert(usdc * lp.blnd_usdc_reserve == lp.blnd_usdc_reserve * usdc)
                by (nonlinear_arith);
            assert(xlm * lp.blnd_xlm_reserve == lp.blnd_xlm_reserve * xlm) by (nonlinear_arith);
            lemma_floor(usdc * lp.blnd_usdc_reserve, lp.blnd_usdc_supply as int);
            lemma_floor(xlm * lp.blnd_xlm_reserve, lp.blnd_xlm_supply as int);
            assert(weights_of(pools).drop_last() =~= weights_of(before));
            assert(blnd_usdc_of(members).drop_last() =~= blnd_usdc_of(init));
            assert(blnd_xlm_of(members).drop_last() =~= blnd_xlm_of(init));
            assert forall|i: int| 0 <= i < members.len() implies weighed_by_reserves(
                #[trigger] pools[i],
                members[i],
                lp,
            ) by {
                if i < init.len() {
                    assert(pools[i] == before[i]);
                    assert(init[i] == members[i]);
                }
            }
        }
    }
}

/// Once the migration is active, a pool weighs the BLND behind its active LP tokens: those
/// of each kind have their part, rounded down, of the BLND in the Comet pool that issued
/// them. All pools together weigh the sum, and no more LP tokens are weighed than exist.
pub proof fn law_pools_weigh_the_blnd_behind_their_lp_tokens(
    members: Seq<ZoneMember>,
    lp: LpCompositions,
)
    ensures
        spec_collect_weights(members, true, lp) matches Ok((pools, total)) ==> {
            &&& pools.len() == members.len()
            &&& forall|i: int|
                0 <= i < members.len() ==> weighed_by_reserves(#[trigger] pools[i], members[i], lp)
            &&& total == sum_of(weights_of(pools))
            &&& members.len() > 0 ==> sum_of(blnd_usdc_of(members)) <= lp.blnd_usdc_supply
                && sum_of(blnd_xlm_of(members)) <= lp.blnd_xlm_supply
        },
{
    if members.len() > 0 {
        if lp.blnd_usdc_supply > 0 && lp.blnd_usdc_reserve >= 0 && lp.blnd_xlm_supply > 0
            && lp.blnd_xlm_reserve >= 0 {
            lemma_weigh_by_reserves(members, lp);
        }
    } else {
        assert(weights_of(Seq::<WeightedPool>::empty()).len() == 0);
    }
}

proof fn lemma_weigh_by_tokens(members: Seq<ZoneMember>)
    ensures
        spec_weigh_all(members, None) matches Ok((pools, totals)) ==> {
            &&& pools.len() == members.len()
            &&& forall|i: int|
                0 <= i < members.len() ==> (#[trigger] pools[i]).pool == members[i].pool
                    && pools[i].state == members[i].state && pools[i].blnd_usdc
                    == members[i].state.active_blnd_usdc && pools[i].blnd_xlm == 0
            &&& totals.eligible == sum_of(blnd_usdc_of(members))
        },
    decreases members.len(),
{
    if members.len() > 0 {
        let init = members.drop_last();
        lemma_weigh_by_tokens(init);
        if let Ok((pools, totals)) = spec_weigh_all(members, None) {
            let (before, _) = spec_weigh_all(init, None)->Ok_0;
            assert(blnd_usdc_of(members).drop_last() =~= blnd_usdc_of(init));
            assert forall|i: int| 0 <= i < members.len() implies (#[trigger] pools[i]).pool
                == members[i].pool && pools[i].state == members[i].state && pools[i].blnd_usdc
                == members[i].state.active_blnd_usdc && pools[i].blnd_xlm == 0 by {
                if i < init.len() {
                    assert(pools[i] == before[i]);
                    assert(init[i] == members[i]);
                }
            }
        }
    }
}

/// Before the migration is active, a pool weighs its active BLND:USDC LP tokens, and its
/// BLND:XLM LP tokens count for nothing.
pub proof fn law_pending_pools_weigh_their_blnd_usdc_tokens(
    members: Seq<ZoneMember>,
    lp: LpCompositions,
)
    ensures
        spec_collect_weights(members, false, lp) matches Ok((pools, total)) ==> {
            &&& pools.len() == members.len()
            &&& forall|i: int|
                0 <= i < members.len() ==> (#[trigger] pools[i]).pool == members[i].pool
                    && pools[i].state == members[i].state && pools[i].blnd_usdc
                    == members[i].state.active_blnd_usdc && pools[i].blnd_xlm == 0
            &&& total == sum_of(blnd_usdc_of(members))
        },
{
    lemma_weigh_by_tokens(members);
    if members.len() == 0 {
        assert(blnd_usdc_of(members).len() == 0);
    }
}

proof fn lemma_weighing_is_owed(members: Seq<ZoneMember>, lp: LpCompositions)
    requires
        forall|i: int| 0 <= i < members.len() ==> (#[trigger] members[i]).state.valid(),
        lp.blnd_usdc_supply > 0,
        lp.blnd_usdc_reserve >= 0,
        lp.blnd_xlm_supply > 0,
        lp.blnd_xlm_reserve >= 0,
        sum_of(blnd_usdc_of(members)) <= lp.blnd_usdc_supply,
        sum_of(blnd_xlm_of(members)) <= lp.blnd_xlm_supply,
        lp.blnd_usdc_reserve + lp.blnd_xlm_reserve <= i128::MAX,
    ensures
        0 <= sum_of(blnd_usdc_of(members)),
        0 <= sum_of(blnd_xlm_of(members)),
        spec_weigh_all(members, Some(lp)) matches Ok((pools, totals)) && exists|usdc: int, xlm: int|
            #![trigger weighs_together(totals.eligible as int, usdc, xlm)]
            weighs_together(totals.eligible as int, usdc, xlm) && usdc * lp.blnd_usdc_supply
                <= sum_of(blnd_usdc_of(members)) * lp.blnd_usdc_reserve && xlm * lp.blnd_xlm_supply
                <= sum_of(blnd_xlm_of(members)) * lp.blnd_xlm_reserve,
    decreases members.len(),
{
    if members.len() == 0 {
        assert(blnd_usdc_of(members).len() == 0);
        assert(blnd_xlm_of(members).len() == 0);
        let (_, none) = spec_weigh_all(members, Some(lp))->Ok_0;
        assert(weighs_together(none.eligible as int, 0, 0));
        let usdc = sum_of(blnd_usdc_of(members));
        let xlm = sum_of(blnd_xlm_of(members));
        assert(0 * lp.blnd_usdc_supply <= usdc * lp.blnd_usdc_reserve && 0 * lp.blnd_xlm_supply
            <= xlm * lp.blnd_xlm_reserve) by (nonlinear_arith)
            requires
                usdc == 0,
                xlm == 0,
        ;
    } else {
        let init = members.drop_last();
        let state = members.last().state;
        assert(members.last() == members[members.len() - 1]);
        assert(forall|i: int| 0 <= i < init.len() ==> #[trigger] init[i] == members[i]);
        assert(blnd_usdc_of(members).drop_last() =~= blnd_usdc_of(init));
        assert(blnd_xlm_of(members).drop_last() =~= blnd_xlm_of(init));
        let a = state.active_blnd_usdc as int;
        let b = state.active_blnd_xlm as int;
        let sum_usdc = sum_of(blnd_usdc_of(init));
        let sum_xlm = sum_of(blnd_xlm_of(init));
        assert(sum_of(blnd_usdc_of(members)) == sum_usdc + a);
        assert(sum_of(blnd_xlm_of(members)) == sum_xlm + b);
        lemma_weighing_is_owed(init, lp);
        lemma_weigh_by_reserves(init, lp);
        let (before, totals) = spec_weigh_all(init, Some(lp))->Ok_0;
        let (usdc, xlm) = choose|usdc: int, xlm: int|
            #![trigger weighs_together(totals.eligible as int, usdc, xlm)]
            weighs_together(totals.eligible as int, usdc, xlm) && usdc * lp.blnd_usdc_supply
                <= sum_usdc * lp.blnd_usdc_reserve && xlm * lp.blnd_xlm_supply <= sum_xlm
                * lp.blnd_xlm_reserve;
        let su = lp.blnd_usdc_supply as int;
        let ru = lp.blnd_usdc_reserve as int;
        let sx = lp.blnd_xlm_supply as int;
        let rx = lp.blnd_xlm_reserve as int;
        let u = a * ru / su;
        let x = b * rx / sx;
        assert(a * ru == ru * a && b * rx == rx * b) by (nonlinear_arith);
        lemma_part_of_value(ru, a, su);
        lemma_part_of_value(rx, b, sx);
        assert((usdc + u) * su <= (sum_usdc + a) * ru) by (nonlinear_arith)
            requires
                usdc * su <= sum_usdc * ru,
                u * su <= a * ru,
        ;
        assert((xlm + x) * sx <= (sum_xlm + b) * rx) by (nonlinear_arith)
            requires
                xlm * sx <= sum_xlm * rx,
                x * sx <= b * rx,
        ;
        assert(usdc + u <= ru) by (nonlinear_arith)
            requires
                (usdc + u) * su <= (sum_usdc + a) * ru,
                sum_usdc + a <= su,
                ru >= 0,
                su > 0,
        ;
        assert(xlm + x <= rx) by (nonlinear_arith)
            requires
                (xlm + x) * sx <= (sum_xlm + b) * rx,
                sum_xlm + b <= sx,
                rx >= 0,
                sx > 0,
        ;
        lemma_weights_are_nonnegative(init, lp);
        assert(spec_weigh_all(members, Some(lp)) is Ok);
        let (_, next) = spec_weigh_all(members, Some(lp))->Ok_0;
        assert(next.eligible == totals.eligible + u + x);
        assert(weighs_together(next.eligible as int, usdc + u, xlm + x));
        let all_usdc = sum_of(blnd_usdc_of(members));
        let all_xlm = sum_of(blnd_xlm_of(members));
        assert((usdc + u) * su <= all_usdc * ru && (xlm + x) * sx <= all_xlm * rx);
    }
}

/// Whether a weight is made of two parts.
spec fn weighs_together(total: int, usdc: int, xlm: int) -> bool {
    total == usdc + xlm
}

proof fn lemma_weights_are_nonnegative(members: Seq<ZoneMember>, lp: LpCompositions)
    requires
        lp.blnd_usdc_supply > 0,
        lp.blnd_usdc_reserve >= 0,
        lp.blnd_xlm_supply > 0,
        lp.blnd_xlm_reserve >= 0,
    ensures
        spec_weigh_all(members, Some(lp)) matches Ok((_, totals)) ==> totals.eligible >= 0,
    decreases members.len(),
{
    if members.len() > 0 {
        lemma_weights_are_nonnegative(members.drop_last(), lp);
        if let Ok((_, totals)) = spec_weigh_all(members, Some(lp)) {
            let state = members.last().state;
            lemma_part_of_value(
                lp.blnd_usdc_reserve as int,
                state.active_blnd_usdc as int,
                lp.blnd_usdc_supply as int,
            );
            lemma_part_of_value(
                lp.blnd_xlm_reserve as int,
                state.active_blnd_xlm as int,
                lp.blnd_xlm_supply as int,
            );
            assert(state.active_blnd_usdc * lp.blnd_usdc_reserve == lp.blnd_usdc_reserve
                * state.active_blnd_usdc) by (nonlinear_arith);
            assert(state.active_blnd_xlm * lp.blnd_xlm_reserve == lp.blnd_xlm_reserve
                * state.active_blnd_xlm) by (nonlinear_arith);
        }
    }
}

/// Valid members are always weighed where both Comet pools can be used and have issued
/// the LP tokens, and their reserves can be added up.
pub proof fn law_usable_pools_are_weighed(members: Seq<ZoneMember>, lp: LpCompositions)
    requires
        forall|i: int| 0 <= i < members.len() ==> (#[trigger] members[i]).state.valid(),
        lp.blnd_usdc_supply > 0,
        lp.blnd_usdc_reserve >= 0,
        lp.blnd_xlm_supply > 0,
        lp.blnd_xlm_reserve >= 0,
        sum_of(blnd_usdc_of(members)) <= lp.blnd_usdc_supply,
        sum_of(blnd_xlm_of(members)) <= lp.blnd_xlm_supply,
        lp.blnd_usdc_reserve + lp.blnd_xlm_reserve <= i128::MAX,
    ensures
        spec_collect_weights(members, true, lp) is Ok,
{
    lemma_weighing_is_owed(members, lp);
    lemma_weigh_by_reserves(members, lp);
}

/// 70% of a distribution, with what the last split left over, goes to the backstop and 30%
/// to the pools, each rounded down; what is lost in the rounding is left over again.
pub proof fn law_distributions_are_split_seventy_thirty(state: OngoingEmissionState, amount: int)
    requires
        amount + state.split_carry >= 0,
    ensures
        ({
            let all = amount + state.split_carry;
            let backstop = backstop_part(state, amount) - state.backstop_carry;
            let pool = pool_part(state, amount) - state.pool_carry;
            &&& is_floor_of(backstop, 7 * all, 10)
            &&& is_floor_of(pool, 3 * all, 10)
            &&& spec_split(all).0 == backstop
            &&& spec_split(all).1 == pool
            &&& spec_split(all).2 == all - backstop - pool
        }),
{
    let all = amount + state.split_carry;
    lemma_floor(all * 7, 10);
    lemma_floor(all * 3, 10);
}

/// Whether a pool's record grew by its part of a distribution: what its tiers gained and
/// what the pool gained are their parts by weight, rounded down, and the tiers share what
/// they gained and had left over by the BLND behind each, rounded down.
pub open spec fn shared_out(
    before: PoolOngoingEmissions,
    after: PoolOngoingEmissions,
    blnd_usdc: int,
    blnd_xlm: int,
    backstop: int,
    pools: int,
    total: int,
) -> bool {
    let weight = blnd_usdc + blnd_xlm;
    let usdc = after.pending_blnd_usdc - before.pending_blnd_usdc;
    let xlm = after.pending_blnd_xlm - before.pending_blnd_xlm;
    let kept = usdc + xlm + after.backstop_tier_carry;
    if weight == 0 {
        after == before
    } else {
        &&& is_floor_of(kept - before.backstop_tier_carry, backstop * weight, total)
        &&& is_floor_of(after.accrued_pool - before.accrued_pool, pools * weight, total)
        &&& is_floor_of(usdc, kept * blnd_usdc, weight)
        &&& is_floor_of(xlm, kept * blnd_xlm, weight)
        &&& after.active_blnd_usdc == before.active_blnd_usdc
        &&& after.active_blnd_xlm == before.active_blnd_xlm
    }
}

/// A pool's record grows by its part of a distribution.
pub proof fn law_pools_gain_by_weight(
    pool: WeightedPool,
    backstop: int,
    pools: int,
    total: int,
)
    requires
        pool.state.valid(),
        0 <= pool.blnd_usdc,
        0 <= pool.blnd_xlm,
        pool.blnd_usdc + pool.blnd_xlm <= total,
        backstop >= 0,
        pools >= 0,
    ensures
        spec_member_allocation(pool, backstop, pools, total) matches Some(next) ==> shared_out(
            pool.state,
            next,
            pool.blnd_usdc as int,
            pool.blnd_xlm as int,
            backstop,
            pools,
            total,
        ) && next.valid(),
{
    if let Some(next) = spec_member_allocation(pool, backstop, pools, total) {
        let weight = pool.blnd_usdc + pool.blnd_xlm;
        if weight == 0 {
            if total != 0 {
                assert(backstop * weight == 0 && pools * weight == 0) by (nonlinear_arith)
                    requires
                        weight == 0,
                ;
            }
        } else {
            lemma_part_of_value(backstop, weight, total);
            lemma_part_of_value(pools, weight, total);
            lemma_floor(backstop * weight, total);
            lemma_floor(pools * weight, total);
            let kept = backstop * weight / total + pool.state.backstop_tier_carry;
            lemma_part_of_value(kept, pool.blnd_usdc as int, weight);
            lemma_part_of_value(kept, pool.blnd_xlm as int, weight);
            lemma_floor(kept * pool.blnd_usdc, weight);
            lemma_floor(kept * pool.blnd_xlm, weight);
            law_tier_allocation_conserves(
                pool.state,
                pool.blnd_usdc as int,
                pool.blnd_xlm as int,
                backstop * weight / total,
            );
        }
    }
}

proof fn lemma_current_record_is_last(
    before: Seq<ZoneMember>,
    pool: Address,
    weighed: PoolOngoingEmissions,
    j: int,
)
    requires
        0 <= j < before.len(),
        before[j].pool == pool,
        forall|k: int| j < k < before.len() ==> (#[trigger] before[k]).pool != pool,
    ensures
        current_record(before, pool, weighed) == before[j].state,
    decreases before.len(),
{
    if j < before.len() - 1 {
        let init = before.drop_last();
        assert(before[before.len() - 1].pool != pool);
        assert(forall|k: int| 0 <= k < init.len() ==> #[trigger] init[k] == before[k]);
        lemma_current_record_is_last(init, pool, weighed, j);
    }
}

proof fn lemma_current_record_is_weighed(
    before: Seq<ZoneMember>,
    pool: Address,
    weighed: PoolOngoingEmissions,
)
    requires
        forall|k: int| 0 <= k < before.len() ==> (#[trigger] before[k]).pool != pool,
    ensures
        current_record(before, pool, weighed) == weighed,
    decreases before.len(),
{
    if before.len() > 0 {
        let init = before.drop_last();
        assert(before[before.len() - 1].pool != pool);
        assert(forall|k: int| 0 <= k < init.len() ==> #[trigger] init[k] == before[k]);
        lemma_current_record_is_weighed(init, pool, weighed);
    }
}

/// The record that the entry at `i` builds on: the one that was weighed, or, where the
/// records are current, the one that the last entry of the same pool left.
pub open spec fn builds_on(
    pools: Seq<WeightedPool>,
    after: Seq<ZoneMember>,
    baseline: Baseline,
    i: int,
    record: PoolOngoingEmissions,
) -> bool {
    if baseline == Baseline::Weighed || forall|j: int|
        0 <= j < i ==> (#[trigger] pools[j]).pool != pools[i].pool {
        record == pools[i].state
    } else {
        exists|j: int|
            {
                &&& 0 <= j < i
                &&& (#[trigger] after[j]).pool == pools[i].pool
                &&& after[j].state == record
                &&& forall|k: int| j < k < i ==> (#[trigger] pools[k]).pool != pools[i].pool
            }
    }
}

/// Whether the entry at `i` grows the record that it builds on by its part.
pub open spec fn gains_its_part(
    pools: Seq<WeightedPool>,
    after: Seq<ZoneMember>,
    backstop: int,
    pool: int,
    total: int,
    baseline: Baseline,
    i: int,
) -> bool {
    &&& after[i].pool == pools[i].pool
    &&& after[i].state.valid()
    &&& exists|record: PoolOngoingEmissions| #[trigger]
        builds_on(pools, after, baseline, i, record) && shared_out(
            record,
            after[i].state,
            pools[i].blnd_usdc as int,
            pools[i].blnd_xlm as int,
            backstop,
            pool,
            total,
        )
}

/// The last entry builds on the record that the allocation takes for it.
proof fn lemma_last_builds_on(
    pools: Seq<WeightedPool>,
    after: Seq<ZoneMember>,
    baseline: Baseline,
) -> (basis: PoolOngoingEmissions)
    requires
        pools.len() == after.len(),
        pools.len() > 0,
        forall|k: int| 0 <= k < pools.len() - 1 ==> (#[trigger] after[k]).pool == pools[k].pool,
        forall|k: int| 0 <= k < pools.len() - 1 ==> (#[trigger] after[k]).state.valid(),
        pools.last().state.valid(),
    ensures
        basis == spec_based(baseline, after.drop_last(), pools.last()).state,
        basis.valid(),
        builds_on(pools, after, baseline, pools.len() - 1, basis),
{
    let n = pools.len() - 1;
    let last = pools[n];
    let before = after.drop_last();
    if baseline == Baseline::Current {
        if forall|j: int| 0 <= j < n ==> (#[trigger] pools[j]).pool != last.pool {
            assert forall|k: int| 0 <= k < before.len() implies (#[trigger] before[k]).pool
                != last.pool by {
                assert(after[k].pool == pools[k].pool);
            }
            lemma_current_record_is_weighed(before, last.pool, last.state);
        } else {
            let some = choose|j: int| 0 <= j < n && (#[trigger] pools[j]).pool == last.pool;
            let j = lemma_last_of(pools, last.pool, n, some);
            assert(after[j].pool == pools[j].pool);
            assert(before[j] == after[j]);
            assert forall|k: int| j < k < before.len() implies (#[trigger] before[k]).pool
                != last.pool by {
                assert(after[k].pool == pools[k].pool);
            }
            lemma_current_record_is_last(before, last.pool, last.state, j);
            assert(after[j].state.valid());
        }
    }
    spec_based(baseline, before, last).state
}

/// Every entry of a distribution grows the record that it builds on by its part.
pub proof fn law_every_entry_gains_its_part(
    pools: Seq<WeightedPool>,
    after: Seq<ZoneMember>,
    backstop: int,
    pool: int,
    total: int,
    baseline: Baseline,
)
    requires
        members_after(after, pools, backstop, pool, total, baseline),
        backstop >= 0,
        pool >= 0,
        forall|i: int|
            0 <= i < pools.len() ==> (#[trigger] pools[i]).state.valid() && 0 <= pools[i].blnd_usdc
                && 0 <= pools[i].blnd_xlm && pools[i].blnd_usdc + pools[i].blnd_xlm <= total,
    ensures
        after.len() == pools.len(),
        forall|i: int|
            0 <= i < pools.len() ==> #[trigger] gains_its_part(
                pools,
                after,
                backstop,
                pool,
                total,
                baseline,
                i,
            ),
    decreases pools.len(),
{
    if pools.len() > 0 {
        let n = pools.len() - 1;
        let init = pools.drop_last();
        assert(forall|i: int| 0 <= i < init.len() ==> #[trigger] init[i] == pools[i]);
        let before = spec_allocate_all(init, backstop, pool, total, baseline)->Some_0;
        law_every_entry_gains_its_part(init, before, backstop, pool, total, baseline);
        assert(after.drop_last() =~= before);
        assert forall|k: int| 0 <= k < n implies (#[trigger] after[k]).pool == pools[k].pool
            && after[k].state.valid() by {
            assert(gains_its_part(init, before, backstop, pool, total, baseline, k));
            assert(before[k] == after[k]);
        }
        let last = pools[n];
        let basis = lemma_last_builds_on(pools, after, baseline);
        law_pools_gain_by_weight(WeightedPool { state: basis, ..last }, backstop, pool, total);
        assert(spec_based(baseline, before, last) == (WeightedPool { state: basis, ..last }));
        assert(gains_its_part(pools, after, backstop, pool, total, baseline, n));
        assert forall|i: int| 0 <= i < pools.len() implies #[trigger] gains_its_part(
            pools,
            after,
            backstop,
            pool,
            total,
            baseline,
            i,
        ) by {
            if i < n {
                assert(gains_its_part(init, before, backstop, pool, total, baseline, i));
                let record = choose|record: PoolOngoingEmissions| #[trigger]
                    builds_on(init, before, baseline, i, record) && shared_out(
                        record,
                        before[i].state,
                        init[i].blnd_usdc as int,
                        init[i].blnd_xlm as int,
                        backstop,
                        pool,
                        total,
                    );
                lemma_builds_on_the_same(pools, after, baseline, i, record);
                assert(after[i] == before[i] && init[i] == pools[i]);
            }
        }
    }
}

/// What an entry builds on does not depend on later entries.
proof fn lemma_builds_on_the_same(
    pools: Seq<WeightedPool>,
    after: Seq<ZoneMember>,
    baseline: Baseline,
    i: int,
    record: PoolOngoingEmissions,
)
    requires
        pools.len() == after.len(),
        0 <= i < pools.len() - 1,
        builds_on(pools.drop_last(), after.drop_last(), baseline, i, record),
    ensures
        builds_on(pools, after, baseline, i, record),
{
    let init = pools.drop_last();
    let before = after.drop_last();
    assert(forall|k: int| 0 <= k < init.len() ==> #[trigger] init[k] == pools[k]);
    assert(forall|k: int| 0 <= k < before.len() ==> #[trigger] before[k] == after[k]);
    if baseline == Baseline::Weighed {
    } else if forall|j: int| 0 <= j < i ==> (#[trigger] init[j]).pool != init[i].pool {
        assert forall|j: int| 0 <= j < i implies (#[trigger] pools[j]).pool != pools[i].pool by {
            assert(init[j] == pools[j]);
        }
    } else {
        let j = choose|j: int|
            {
                &&& 0 <= j < i
                &&& (#[trigger] before[j]).pool == init[i].pool
                &&& before[j].state == record
                &&& forall|k: int| j < k < i ==> (#[trigger] init[k]).pool != init[i].pool
            };
        assert(after[j].pool == pools[i].pool && after[j].state == record);
        assert forall|k: int| j < k < i implies (#[trigger] pools[k]).pool != pools[i].pool by {
            assert(init[k] == pools[k]);
        }
        let other = choose|k: int| 0 <= k < i && (#[trigger] init[k]).pool == init[i].pool;
        assert(pools[other].pool == pools[i].pool);
    }
}

/// The last entry of a pool before `n`.
proof fn lemma_last_of(pools: Seq<WeightedPool>, pool: Address, n: int, some: int) -> (j: int)
    requires
        0 <= some < n <= pools.len(),
        pools[some].pool == pool,
    ensures
        some <= j < n,
        pools[j].pool == pool,
        forall|k: int| j < k < n ==> (#[trigger] pools[k]).pool != pool,
    decreases n - some,
{
    if exists|k: int| some < k < n && (#[trigger] pools[k]).pool == pool {
        let next = choose|k: int| some < k < n && (#[trigger] pools[k]).pool == pool;
        lemma_last_of(pools, pool, n, next)
    } else {
        some
    }
}

} // verus!
