//! Allocation of emissions to the pools of the reward zone and their tiers.

use soroban_sdk::Env;
use vstd::prelude::*;

use super::policy::{
    checked_add, comet_composition, lemma_part_of_value, law_split_conserves_the_total,
    pool_active_emission_assets, pool_spot_blnt_emission_weight, proportional_floor,
    quote_ongoing_blnt_split, spec_active_assets, spec_split, spec_spot_weight,
    spec_underlying_blnt, underlying_blnt_from_composition, LpPosition,
};
use super::distributor::{checkpoint_fits, spec_checkpoint, update_emissions};
use super::zone_laws::{law_pools_weigh_both_positions, weighs};
use crate::backstop::pool::{
    is_blnd_emission_tier, lemma_tokens_for_bounds, spec_from_factory_asset, spec_is_blnd_asset,
    spec_tier_config, BackstopAsset, BackstopTier, PoolBalance,
};
use crate::backstop::share_laws::{
    law_tiers_weigh_the_tokens_that_are_not_queued, stands_behind,
};
use crate::constants::{MAX_BACKFILLED_EMISSIONS, SCALAR_7};
use crate::dependencies::pool_factory::BackstopTierConfig;
use crate::errors::BackstopError;
use crate::math::{fits_i128, lemma_quotient_bounds};
use crate::migration::{
    record_backfill_distribution, require_weight_mutation_allowed, spec_weight_mutation_gate,
};
use crate::storage::{
    BackstopEmissionData, OngoingEmissionState, PoolOngoingEmissions, UserEmissionData,
};
use crate::Address;

verus! {

/// The objection to a state of all ongoing emissions: a negative amount, totals
/// beyond an `i128`, or emissions that are not accounted for.
pub open spec fn spec_check_state(state: OngoingEmissionState) -> Result<(), BackstopError> {
    if !state.valid() {
        Err(BackstopError::InvalidEmissionValue)
    } else if state.accounted() > i128::MAX {
        Err(BackstopError::OverflowError)
    } else if !state.conserves() {
        Err(BackstopError::InvalidOngoingBalance)
    } else {
        Ok(())
    }
}

/// Check that no amount is negative and no more is claimed than allocated.
pub fn validate_ongoing_emission_state(state: &OngoingEmissionState) -> (r: Result<
    (),
    BackstopError,
>)
    ensures
        r == if state.valid() {
            Ok(())
        } else {
            Err(BackstopError::InvalidEmissionValue)
        },
{
    if state.backstop_allocated < 0 || state.backstop_carry < 0 || state.backstop_claimed < 0
        || state.pool_allocated < 0 || state.pool_carry < 0 || state.split_carry < 0
        || state.total_distributed < 0 || state.backstop_claimed > state.backstop_allocated {
        return Err(BackstopError::InvalidEmissionValue);
    }
    Ok(())
}

/// Check a state before it is put on record.
pub fn set_ongoing_emission_state(state: &OngoingEmissionState) -> (r: Result<(), BackstopError>)
    ensures
        r == spec_check_state(*state),
{
    validate_ongoing_emission_state(state)?;
    let allocated: i128 = checked_add(state.backstop_allocated, state.pool_allocated)?;
    let part_carries: i128 = checked_add(state.backstop_carry, state.pool_carry)?;
    let carries: i128 = checked_add(state.split_carry, part_carries)?;
    let accounted: i128 = checked_add(allocated, carries)?;
    if accounted != state.total_distributed {
        return Err(BackstopError::InvalidOngoingBalance);
    }
    Ok(())
}

/// Check that no amount of a pool's emissions is negative.
pub fn validate_pool_ongoing_emissions(state: &PoolOngoingEmissions) -> (r: Result<
    (),
    BackstopError,
>)
    ensures
        r == if state.valid() {
            Ok(())
        } else {
            Err(BackstopError::InvalidEmissionValue)
        },
{
    if state.accrued_pool < 0 || state.active_blnd_usdc < 0 || state.active_blnd_xlm < 0
        || state.backstop_tier_carry < 0 || state.pending_blnd_usdc < 0 || state.pending_blnd_xlm
        < 0 {
        return Err(BackstopError::InvalidEmissionValue);
    }
    Ok(())
}

/// The emissions of a number of seconds: one token for each.
pub fn emissions_for_seconds(seconds: u64) -> (r: i128)
    ensures
        r == seconds * SCALAR_7,
        r >= 0,
{
    seconds as i128 * SCALAR_7
}

/// A difference that must not be negative.
pub open spec fn spec_balance_sub(left: int, right: int) -> Result<i128, BackstopError> {
    if 0 <= left - right <= i128::MAX {
        Ok((left - right) as i128)
    } else {
        Err(BackstopError::InvalidOngoingBalance)
    }
}

fn checked_sub(left: i128, right: i128) -> (r: Result<i128, BackstopError>)
    ensures
        r == spec_balance_sub(left as int, right as int),
{
    match left.checked_sub(right) {
        Some(difference) => if difference >= 0 {
            Ok(difference)
        } else {
            Err(BackstopError::InvalidOngoingBalance)
        },
        None => Err(BackstopError::InvalidOngoingBalance),
    }
}

/// A difference of either sign.
pub fn checked_signed_sub(left: i128, right: i128) -> (r: Result<i128, BackstopError>)
    ensures
        r == if fits_i128(left - right) {
            Ok((left - right) as i128)
        } else {
            Err(BackstopError::OverflowError)
        },
{
    match left.checked_sub(right) {
        Some(difference) => Ok(difference),
        None => Err(BackstopError::OverflowError),
    }
}

/// A pool of the reward zone with its emissions.
#[derive(Clone, Copy, Debug, PartialEq, Eq, Structural)]
pub struct ZoneMember {
    pub pool: Address,
    pub state: PoolOngoingEmissions,
}

/// A pool of the reward zone with the weights of its two LP tiers.
#[derive(Clone, Copy, Debug, PartialEq, Eq, Structural)]
pub struct WeightedPool {
    pub pool: Address,
    pub state: PoolOngoingEmissions,
    pub blnd_usdc: i128,
    pub blnd_xlm: i128,
}

impl WeightedPool {
    /// The weight of both tiers.
    pub open spec fn weight(self) -> int {
        self.blnd_usdc + self.blnd_xlm
    }

    /// The emissions are valid and no weight is negative.
    pub open spec fn well_formed(self) -> bool {
        self.state.valid() && 0 <= self.blnd_usdc && 0 <= self.blnd_xlm
    }
}

/// Running totals over the reward zone: weights, and LP tokens of the two tiers.
#[derive(Clone, Copy, Debug, PartialEq, Eq, Structural)]
pub struct WeightTotals {
    pub eligible: i128,
    pub blnd_usdc: i128,
    pub blnd_xlm: i128,
}

/// The supply and the BLND reserve of the two canonical Comet pools.
#[derive(Clone, Copy, Debug, PartialEq, Eq, Structural)]
pub struct LpCompositions {
    pub blnd_usdc_supply: i128,
    pub blnd_usdc_reserve: i128,
    pub blnd_xlm_supply: i128,
    pub blnd_xlm_reserve: i128,
}

/// The weights of a pool whose BLND:USDC LP tokens count as they are.
pub open spec fn spec_weigh_tokens(member: ZoneMember, totals: WeightTotals) -> Result<
    (WeightedPool, WeightTotals),
    BackstopError,
> {
    let lp = member.state.active_blnd_usdc;
    if !member.state.valid() {
        Err(BackstopError::InvalidEmissionValue)
    } else if !fits_i128(totals.eligible + lp) {
        Err(BackstopError::OverflowError)
    } else {
        Ok(
            (
                WeightedPool { pool: member.pool, state: member.state, blnd_usdc: lp, blnd_xlm: 0 },
                WeightTotals { eligible: (totals.eligible + lp) as i128, ..totals },
            ),
        )
    }
}

/// The weights of a pool by the BLND that its LP tokens stand for.
pub open spec fn spec_weigh_underlying(
    member: ZoneMember,
    lp: LpCompositions,
    totals: WeightTotals,
) -> Result<(WeightedPool, WeightTotals), BackstopError> {
    let usdc = member.state.active_blnd_usdc as int;
    let xlm = member.state.active_blnd_xlm as int;
    let blnd_usdc = spec_underlying_blnt(
        usdc,
        lp.blnd_usdc_supply as int,
        lp.blnd_usdc_reserve as int,
    );
    let blnd_xlm = spec_underlying_blnt(xlm, lp.blnd_xlm_supply as int, lp.blnd_xlm_reserve as int);
    if !member.state.valid() {
        Err(BackstopError::InvalidEmissionValue)
    } else if !fits_i128(totals.blnd_usdc + usdc) {
        Err(BackstopError::OverflowError)
    } else if blnd_usdc is Err {
        Err(blnd_usdc->Err_0)
    } else if !fits_i128(totals.blnd_xlm + xlm) {
        Err(BackstopError::OverflowError)
    } else if blnd_xlm is Err {
        Err(blnd_xlm->Err_0)
    } else if !fits_i128(blnd_usdc->Ok_0 + blnd_xlm->Ok_0) || !fits_i128(
        totals.eligible + blnd_usdc->Ok_0 + blnd_xlm->Ok_0,
    ) {
        Err(BackstopError::OverflowError)
    } else {
        Ok(
            (
                WeightedPool {
                    pool: member.pool,
                    state: member.state,
                    blnd_usdc: blnd_usdc->Ok_0,
                    blnd_xlm: blnd_xlm->Ok_0,
                },
                WeightTotals {
                    eligible: (totals.eligible + blnd_usdc->Ok_0 + blnd_xlm->Ok_0) as i128,
                    blnd_usdc: (totals.blnd_usdc + usdc) as i128,
                    blnd_xlm: (totals.blnd_xlm + xlm) as i128,
                },
            ),
        )
    }
}

/// The weights of one pool and the running totals with them.
pub open spec fn spec_weigh(
    member: ZoneMember,
    lp: Option<LpCompositions>,
    totals: WeightTotals,
) -> Result<(WeightedPool, WeightTotals), BackstopError> {
    match lp {
        None => spec_weigh_tokens(member, totals),
        Some(lp) => spec_weigh_underlying(member, lp, totals),
    }
}

/// Totals of nothing.
pub open spec fn no_totals() -> WeightTotals {
    WeightTotals { eligible: 0, blnd_usdc: 0, blnd_xlm: 0 }
}

/// The weights of all pools in order with their totals, or the first error.
pub open spec fn spec_weigh_all(members: Seq<ZoneMember>, lp: Option<LpCompositions>) -> Result<
    (Seq<WeightedPool>, WeightTotals),
    BackstopError,
>
    decreases members.len(),
{
    if members.len() == 0 {
        Ok((Seq::empty(), no_totals()))
    } else {
        match spec_weigh_all(members.drop_last(), lp) {
            Err(error) => Err(error),
            Ok((pools, totals)) => match spec_weigh(members.last(), lp, totals) {
                Err(error) => Err(error),
                Ok((pool, next)) => Ok((pools.push(pool), next)),
            },
        }
    }
}

/// The objection to the composition that a Comet pool reports.
pub open spec fn usable_composition(total_supply: i128, blnd_reserve: i128) -> bool {
    total_supply > 0 && blnd_reserve >= 0
}

/// The weights of the reward zone and their sum, or the first error. By underlying
/// BLND the pools together cannot hold more LP tokens than there are.
pub open spec fn spec_collect_weights(
    members: Seq<ZoneMember>,
    use_underlying_blnd: bool,
    lp: LpCompositions,
) -> Result<(Seq<WeightedPool>, i128), BackstopError> {
    if members.len() == 0 {
        Ok((Seq::empty(), 0))
    } else if !use_underlying_blnd {
        match spec_weigh_all(members, None) {
            Err(error) => Err(error),
            Ok((pools, totals)) => Ok((pools, totals.eligible)),
        }
    } else if !usable_composition(lp.blnd_usdc_supply, lp.blnd_usdc_reserve)
        || !usable_composition(lp.blnd_xlm_supply, lp.blnd_xlm_reserve) {
        Err(BackstopError::InvalidEmissionValue)
    } else {
        match spec_weigh_all(members, Some(lp)) {
            Err(error) => Err(error),
            Ok((pools, totals)) => if totals.blnd_usdc > lp.blnd_usdc_supply || totals.blnd_xlm
                > lp.blnd_xlm_supply {
                Err(BackstopError::NoEligibleWeight)
            } else {
                Ok((pools, totals.eligible))
            },
        }
    }
}

/// The sum of weights.
pub open spec fn weight_sum(pools: Seq<WeightedPool>) -> int
    decreases pools.len(),
{
    if pools.len() == 0 {
        0
    } else {
        weight_sum(pools.drop_last()) + pools.last().weight()
    }
}

/// Every pool is well formed.
pub open spec fn pools_well_formed(pools: Seq<WeightedPool>) -> bool {
    forall|i: int| 0 <= i < pools.len() ==> (#[trigger] pools[i]).well_formed()
}

proof fn lemma_weigh_all(members: Seq<ZoneMember>, lp: Option<LpCompositions>)
    requires
        lp matches Some(c) ==> usable_composition(c.blnd_usdc_supply, c.blnd_usdc_reserve)
            && usable_composition(c.blnd_xlm_supply, c.blnd_xlm_reserve),
    ensures
        spec_weigh_all(members, lp) matches Ok((pools, totals)) ==> {
            &&& pools.len() == members.len()
            &&& pools_well_formed(pools)
            &&& weight_sum(pools) == totals.eligible
            &&& totals.eligible >= 0 && totals.blnd_usdc >= 0 && totals.blnd_xlm >= 0
            &&& forall|i: int|
                0 <= i < members.len() ==> (#[trigger] pools[i]).pool == members[i].pool
                    && pools[i].state == members[i].state
        },
    decreases members.len(),
{
    if members.len() > 0 {
        let init = members.drop_last();
        lemma_weigh_all(init, lp);
        if let Ok((pools, totals)) = spec_weigh_all(members, lp) {
            let before = spec_weigh_all(init, lp)->Ok_0.0;
            assert(pools.drop_last() =~= before);
            if let Some(c) = lp {
                let m = members.last().state;
                lemma_part_of_value(
                    c.blnd_usdc_reserve as int,
                    m.active_blnd_usdc as int,
                    c.blnd_usdc_supply as int,
                );
                lemma_part_of_value(
                    c.blnd_xlm_reserve as int,
                    m.active_blnd_xlm as int,
                    c.blnd_xlm_supply as int,
                );
                assert(m.active_blnd_usdc * c.blnd_usdc_reserve == c.blnd_usdc_reserve
                    * m.active_blnd_usdc) by (nonlinear_arith);
                assert(m.active_blnd_xlm * c.blnd_xlm_reserve == c.blnd_xlm_reserve
                    * m.active_blnd_xlm) by (nonlinear_arith);
            }
            assert forall|i: int| 0 <= i < members.len() implies (#[trigger] pools[i]).well_formed()
                && pools[i].pool == members[i].pool && pools[i].state == members[i].state by {
                if i < init.len() {
                    assert(pools[i] == before[i]);
                    assert(init[i] == members[i]);
                }
            }
        }
    }
}

/// Collected weights are those of the members in order, none is negative, and
/// they add up to the total.
pub proof fn law_collected_weights_add_up(
    members: Seq<ZoneMember>,
    use_underlying_blnd: bool,
    lp: LpCompositions,
)
    ensures
        spec_collect_weights(members, use_underlying_blnd, lp) matches Ok((pools, total)) ==> {
            &&& pools.len() == members.len()
            &&& pools_well_formed(pools)
            &&& weight_sum(pools) == total
            &&& total >= 0
            &&& forall|i: int|
                0 <= i < members.len() ==> (#[trigger] pools[i]).pool == members[i].pool
                    && pools[i].state == members[i].state
        },
{
    if members.len() > 0 {
        if !use_underlying_blnd {
            lemma_weigh_all(members, None);
        } else if usable_composition(lp.blnd_usdc_supply, lp.blnd_usdc_reserve)
            && usable_composition(lp.blnd_xlm_supply, lp.blnd_xlm_reserve) {
            lemma_weigh_all(members, Some(lp));
        }
    }
}

/// Weigh one pool.
fn weigh(e: &Env, member: &ZoneMember, lp: &Option<LpCompositions>, totals: &WeightTotals) -> (r:
    Result<(WeightedPool, WeightTotals), BackstopError>)
    requires
        totals.eligible >= 0,
        totals.blnd_usdc >= 0,
        totals.blnd_xlm >= 0,
    ensures
        r == spec_weigh(*member, *lp, *totals),
{
    validate_pool_ongoing_emissions(&member.state)?;
    let state = member.state;
    match lp {
        None => {
            let eligible: i128 = checked_add(totals.eligible, state.active_blnd_usdc)?;
            Ok(
                (
                    WeightedPool {
                        pool: member.pool,
                        state,
                        blnd_usdc: state.active_blnd_usdc,
                        blnd_xlm: 0,
                    },
                    WeightTotals {
                        eligible,
                        blnd_usdc: totals.blnd_usdc,
                        blnd_xlm: totals.blnd_xlm,
                    },
                ),
            )
        },
        Some(lp) => {
            let total_usdc: i128 = checked_add(totals.blnd_usdc, state.active_blnd_usdc)?;
            let blnd_usdc: i128 = underlying_blnt_from_composition(
                e,
                state.active_blnd_usdc,
                lp.blnd_usdc_supply,
                lp.blnd_usdc_reserve,
            )?;
            let total_xlm: i128 = checked_add(totals.blnd_xlm, state.active_blnd_xlm)?;
            let blnd_xlm: i128 = underlying_blnt_from_composition(
                e,
                state.active_blnd_xlm,
                lp.blnd_xlm_supply,
                lp.blnd_xlm_reserve,
            )?;
            let pool_weight: i128 = checked_add(blnd_usdc, blnd_xlm)?;
            let eligible: i128 = checked_add(totals.eligible, pool_weight)?;
            Ok(
                (
                    WeightedPool { pool: member.pool, state, blnd_usdc, blnd_xlm },
                    WeightTotals { eligible, blnd_usdc: total_usdc, blnd_xlm: total_xlm },
                ),
            )
        },
    }
}

proof fn lemma_weigh_all_error(members: Seq<ZoneMember>, lp: Option<LpCompositions>, i: int)
    requires
        0 <= i <= members.len(),
        spec_weigh_all(members.take(i), lp) is Err,
    ensures
        spec_weigh_all(members, lp) == spec_weigh_all(members.take(i), lp),
    decreases members.len() - i,
{
    if i == members.len() {
        assert(members.take(i) =~= members);
    } else {
        assert(members.take(i + 1).drop_last() =~= members.take(i));
        lemma_weigh_all_error(members, lp, i + 1);
    }
}

/// Weigh the pools of the reward zone: by the BLND that their active LP tokens
/// stand for, or by their active BLND:USDC LP tokens alone.
pub fn collect_weights(
    e: &Env,
    members: &Vec<ZoneMember>,
    use_underlying_blnd: bool,
    lp: &LpCompositions,
) -> (r: Result<(Vec<WeightedPool>, i128), BackstopError>)
    ensures
        match r {
            Ok((pools, total)) => spec_collect_weights(members@, use_underlying_blnd, *lp) == Ok::<
                (Seq<WeightedPool>, i128),
                BackstopError,
            >((pools@, total)),
            Err(error) => spec_collect_weights(members@, use_underlying_blnd, *lp) == Err::<
                (Seq<WeightedPool>, i128),
                BackstopError,
            >(error),
        },
{
    let mut pools: Vec<WeightedPool> = Vec::new();
    if members.len() == 0 {
        return Ok((pools, 0));
    }
    let prices: Option<LpCompositions> = if use_underlying_blnd {
        comet_composition(true, lp.blnd_usdc_supply, lp.blnd_usdc_reserve)?;
        comet_composition(true, lp.blnd_xlm_supply, lp.blnd_xlm_reserve)?;
        Some(*lp)
    } else {
        None
    };
    let mut totals = WeightTotals { eligible: 0, blnd_usdc: 0, blnd_xlm: 0 };
    let mut index: usize = 0;
    while index < members.len()
        invariant
            index <= members@.len(),
            members@.len() > 0,
            prices == if use_underlying_blnd {
                Some(*lp)
            } else {
                None
            },
            use_underlying_blnd ==> usable_composition(lp.blnd_usdc_supply, lp.blnd_usdc_reserve)
                && usable_composition(lp.blnd_xlm_supply, lp.blnd_xlm_reserve),
            spec_weigh_all(members@.take(index as int), prices) == Ok::<
                (Seq<WeightedPool>, WeightTotals),
                BackstopError,
            >((pools@, totals)),
        decreases members@.len() - index,
    {
        proof {
            let next = members@.take(index + 1);
            assert(next.drop_last() =~= members@.take(index as int));
            assert(next.last() == members@[index as int]);
            lemma_weigh_all(members@.take(index as int), prices);
            if spec_weigh_all(next, prices) is Err {
                lemma_weigh_all_error(members@, prices, index + 1);
            }
        }
        let weighed = weigh(e, &members[index], &prices, &totals)?;
        pools.push(weighed.0);
        totals = weighed.1;
        index = index + 1;
    }
    assert(members@.take(index as int) =~= members@);
    if use_underlying_blnd && (totals.blnd_usdc > lp.blnd_usdc_supply || totals.blnd_xlm
        > lp.blnd_xlm_supply) {
        return Err(BackstopError::NoEligibleWeight);
    }
    Ok((pools, totals.eligible))
}

/// The part of a distribution that a weight earns, rounded down; nothing where
/// no pool has weight.
pub open spec fn share_of(distribution: int, weight: int, total: int) -> int {
    if total == 0 {
        0
    } else {
        distribution * weight / total
    }
}

/// What all pools earn of a distribution.
pub open spec fn share_sum(pools: Seq<WeightedPool>, distribution: int, total: int) -> int
    decreases pools.len(),
{
    if pools.len() == 0 {
        0
    } else {
        share_sum(pools.drop_last(), distribution, total) + share_of(
            distribution,
            pools.last().weight(),
            total,
        )
    }
}

/// The pools together never earn more than the distribution.
pub proof fn lemma_shares_within(pools: Seq<WeightedPool>, distribution: int, total: int)
    requires
        pools_well_formed(pools),
        distribution >= 0,
        weight_sum(pools) <= total,
    ensures
        0 <= weight_sum(pools),
        0 <= share_sum(pools, distribution, total) <= distribution,
        share_sum(pools, distribution, total) * total <= distribution * weight_sum(pools),
    decreases pools.len(),
{
    if pools.len() == 0 {
        assert(0 * total <= distribution * 0) by (nonlinear_arith);
    } else {
        let init = pools.drop_last();
        let w = pools.last().weight();
        assert(pools.last() == pools[pools.len() - 1]);
        assert(pools_well_formed(init)) by {
            assert(forall|i: int| 0 <= i < init.len() ==> #[trigger] init[i] == pools[i]);
        }
        lemma_shares_within(init, distribution, total);
        let before = share_sum(init, distribution, total);
        let share = share_of(distribution, w, total);
        let sum = share_sum(pools, distribution, total);
        let ws = weight_sum(init);
        if total > 0 {
            lemma_part_of_value(distribution, w, total);
            assert(sum * total <= distribution * (ws + w)) by (nonlinear_arith)
                requires
                    sum == before + share,
                    before * total <= distribution * ws,
                    share * total <= distribution * w,
            ;
            assert(sum <= distribution) by (nonlinear_arith)
                requires
                    sum * total <= distribution * (ws + w),
                    ws + w <= total,
                    total > 0,
                    distribution >= 0,
            ;
        } else {
            assert(sum * total <= distribution * (ws + w)) by (nonlinear_arith)
                requires
                    total == 0,
                    ws + w == 0,
            ;
        }
    }
}

/// Weights at the front of a list are part of all the weights.
pub(crate) proof fn lemma_weight_prefix(pools: Seq<WeightedPool>, n: int)
    requires
        pools_well_formed(pools),
        0 <= n <= pools.len(),
    ensures
        0 <= weight_sum(pools.take(n)) <= weight_sum(pools),
        pools_well_formed(pools.take(n)),
        n < pools.len() ==> pools[n].weight() <= weight_sum(pools),
    decreases pools.len(),
{
    let front = pools.take(n);
    assert(pools_well_formed(front)) by {
        assert(forall|i: int| 0 <= i < front.len() ==> #[trigger] front[i] == pools[i]);
    }
    if pools.len() > 0 {
        let init = pools.drop_last();
        assert(pools.last() == pools[pools.len() - 1]);
        assert(pools_well_formed(init)) by {
            assert(forall|i: int| 0 <= i < init.len() ==> #[trigger] init[i] == pools[i]);
        }
        if n == pools.len() {
            lemma_weight_prefix(init, n - 1);
            assert(init.take(n - 1) =~= init);
            assert(front =~= pools);
        } else {
            lemma_weight_prefix(init, n);
            assert(init.take(n) =~= front);
            if n == init.len() {
                assert(init.take(n) =~= init);
            } else {
                assert(init[n] == pools[n]);
            }
        }
    } else {
        assert(front =~= pools);
    }
}

/// A pool's tiers after an allocation: the allocation and what the last one left
/// over, split by the tiers' weights; nothing where an amount overflows.
pub open spec fn spec_tier_allocation(
    state: PoolOngoingEmissions,
    blnd_usdc_weight: int,
    blnd_xlm_weight: int,
    allocation: int,
) -> Option<PoolOngoingEmissions> {
    let total = blnd_usdc_weight + blnd_xlm_weight;
    let distribution = allocation + state.backstop_tier_carry;
    let usdc = distribution * blnd_usdc_weight / total;
    let xlm = distribution * blnd_xlm_weight / total;
    if distribution > i128::MAX {
        None
    } else if total == 0 {
        Some(state)
    } else if state.pending_blnd_usdc + usdc > i128::MAX || state.pending_blnd_xlm + xlm
        > i128::MAX {
        None
    } else {
        Some(
            PoolOngoingEmissions {
                backstop_tier_carry: (distribution - usdc - xlm) as i128,
                pending_blnd_usdc: (state.pending_blnd_usdc + usdc) as i128,
                pending_blnd_xlm: (state.pending_blnd_xlm + xlm) as i128,
                ..state
            },
        )
    }
}

proof fn lemma_two_parts(distribution: int, a: int, b: int)
    requires
        distribution >= 0,
        a >= 0,
        b >= 0,
        a + b > 0,
    ensures
        0 <= distribution * a / (a + b) <= distribution,
        0 <= distribution * b / (a + b) <= distribution,
        distribution - 1 <= distribution * a / (a + b) + distribution * b / (a + b)
            <= distribution,
{
    let t = a + b;
    lemma_part_of_value(distribution, a, t);
    lemma_part_of_value(distribution, b, t);
    assert(distribution * a >= 0 && distribution * b >= 0) by (nonlinear_arith)
        requires
            distribution >= 0,
            a >= 0,
            b >= 0,
    ;
    lemma_quotient_bounds(distribution * a, t);
    lemma_quotient_bounds(distribution * b, t);
    let x = distribution * a / t;
    let y = distribution * b / t;
    assert(distribution - 1 <= x + y <= distribution) by (nonlinear_arith)
        requires
            x * t <= distribution * a < x * t + t,
            y * t <= distribution * b < y * t + t,
            t == a + b,
            t > 0,
    ;
}

/// What a pool's tiers are allocated is split without loss, and at most one unit is left over.
pub proof fn law_tier_allocation_conserves(
    state: PoolOngoingEmissions,
    blnd_usdc_weight: int,
    blnd_xlm_weight: int,
    allocation: int,
)
    requires
        state.valid(),
        blnd_usdc_weight >= 0,
        blnd_xlm_weight >= 0,
        blnd_usdc_weight + blnd_xlm_weight > 0,
        allocation >= 0,
    ensures
        spec_tier_allocation(state, blnd_usdc_weight, blnd_xlm_weight, allocation) matches Some(
            next,
        ) ==> {
            &&& next.valid()
            &&& next.pending_blnd_usdc + next.pending_blnd_xlm + next.backstop_tier_carry
                == state.pending_blnd_usdc + state.pending_blnd_xlm + state.backstop_tier_carry
                + allocation
            &&& 0 <= next.backstop_tier_carry <= 1
        },
{
    lemma_two_parts(allocation + state.backstop_tier_carry, blnd_usdc_weight, blnd_xlm_weight);
}

/// Allocate emissions to the two LP tiers of a pool.
pub fn allocate_pool_backstop_emissions(
    e: &Env,
    state: &mut PoolOngoingEmissions,
    blnd_usdc_weight: i128,
    blnd_xlm_weight: i128,
    allocation: i128,
) -> (r: Result<(), BackstopError>)
    requires
        old(state).valid(),
        blnd_usdc_weight >= 0,
        blnd_xlm_weight >= 0,
        fits_i128(blnd_usdc_weight + blnd_xlm_weight),
    ensures
        if allocation < 0 {
            &&& r == Err::<(), BackstopError>(BackstopError::InvalidEmissionValue)
            &&& *final(state) == *old(state)
        } else {
            match spec_tier_allocation(
                *old(state),
                blnd_usdc_weight as int,
                blnd_xlm_weight as int,
                allocation as int,
            ) {
                None => {
                    &&& r == Err::<(), BackstopError>(BackstopError::OverflowError)
                    &&& *final(state) == *old(state)
                },
                Some(next) => {
                    &&& r == Ok::<(), BackstopError>(())
                    &&& *final(state) == next
                    &&& next.valid()
                },
            }
        },
{
    if allocation < 0 {
        return Err(BackstopError::InvalidEmissionValue);
    }
    let total_weight: i128 = checked_add(blnd_usdc_weight, blnd_xlm_weight)?;
    let distribution: i128 = checked_add(allocation, state.backstop_tier_carry)?;
    if total_weight == 0 {
        return Ok(());
    }
    proof {
        lemma_two_parts(distribution as int, blnd_usdc_weight as int, blnd_xlm_weight as int);
    }
    let blnd_usdc: i128 = proportional_floor(e, distribution, blnd_usdc_weight, total_weight)?;
    let blnd_xlm: i128 = proportional_floor(e, distribution, blnd_xlm_weight, total_weight)?;
    let allocated: i128 = checked_add(blnd_usdc, blnd_xlm)?;
    let carry: i128 = checked_sub(distribution, allocated)?;
    let pending_blnd_usdc: i128 = checked_add(state.pending_blnd_usdc, blnd_usdc)?;
    let pending_blnd_xlm: i128 = checked_add(state.pending_blnd_xlm, blnd_xlm)?;
    state.backstop_tier_carry = carry;
    state.pending_blnd_usdc = pending_blnd_usdc;
    state.pending_blnd_xlm = pending_blnd_xlm;
    Ok(())
}

/// What a distribution came to.
#[derive(Debug)]
pub struct Allocation {
    /// The emissions distributed.
    pub distributed: i128,
    /// The weight of all pools.
    pub eligible_blnd: i128,
    /// What the tiers of all pools were allocated.
    pub backstop_allocated: i128,
    /// What all pools were allocated.
    pub pool_allocated: i128,
    /// The pools of the reward zone with their emissions after the distribution.
    pub members: Vec<ZoneMember>,
}

/// The backstop's part of a distribution, with what the last one left over.
pub open spec fn backstop_part(state: OngoingEmissionState, amount: int) -> int {
    spec_split(amount + state.split_carry).0 + state.backstop_carry
}

/// The pools' part of a distribution, with what the last one left over.
pub open spec fn pool_part(state: OngoingEmissionState, amount: int) -> int {
    spec_split(amount + state.split_carry).1 + state.pool_carry
}

/// A pool's emissions after a distribution; nothing where an amount overflows.
pub open spec fn spec_member_allocation(
    pool: WeightedPool,
    backstop: int,
    pools: int,
    total: int,
) -> Option<PoolOngoingEmissions> {
    let tiers = spec_tier_allocation(
        pool.state,
        pool.blnd_usdc as int,
        pool.blnd_xlm as int,
        share_of(backstop, pool.weight(), total),
    );
    match tiers {
        None => None,
        Some(next) => {
            let accrued = next.accrued_pool + share_of(pools, pool.weight(), total);
            if accrued > i128::MAX {
                None
            } else {
                Some(PoolOngoingEmissions { accrued_pool: accrued as i128, ..next })
            }
        },
    }
}

/// The record that an allocation to a pool builds on, should the pool be listed again.
#[derive(Clone, Copy, Debug, PartialEq, Eq, Structural)]
pub enum Baseline {
    /// The record that was weighed.
    Weighed,
    /// The record as the allocations before left it.
    Current,
}

/// A pool's record as the allocations before left it.
pub open spec fn current_record(
    before: Seq<ZoneMember>,
    pool: Address,
    weighed: PoolOngoingEmissions,
) -> PoolOngoingEmissions
    decreases before.len(),
{
    if before.len() == 0 {
        weighed
    } else if before.last().pool == pool {
        before.last().state
    } else {
        current_record(before.drop_last(), pool, weighed)
    }
}

/// A pool with the record that an allocation to it builds on.
pub open spec fn spec_based(
    baseline: Baseline,
    before: Seq<ZoneMember>,
    pool: WeightedPool,
) -> WeightedPool {
    match baseline {
        Baseline::Weighed => pool,
        Baseline::Current => WeightedPool {
            state: current_record(before, pool.pool, pool.state),
            ..pool
        },
    }
}

/// The pools with their emissions after a distribution, in order; nothing where an amount
/// overflows.
pub open spec fn spec_allocate_all(
    pools: Seq<WeightedPool>,
    backstop: int,
    pool: int,
    total: int,
    baseline: Baseline,
) -> Option<Seq<ZoneMember>>
    decreases pools.len(),
{
    if pools.len() == 0 {
        Some(Seq::empty())
    } else {
        match spec_allocate_all(pools.drop_last(), backstop, pool, total, baseline) {
            None => None,
            Some(before) => match spec_member_allocation(
                spec_based(baseline, before, pools.last()),
                backstop,
                pool,
                total,
            ) {
                None => None,
                Some(state) => Some(before.push(ZoneMember { pool: pools.last().pool, state })),
            },
        }
    }
}

proof fn lemma_allocate_all_overflow(
    pools: Seq<WeightedPool>,
    backstop: int,
    pool: int,
    total: int,
    baseline: Baseline,
    i: int,
)
    requires
        0 <= i <= pools.len(),
        spec_allocate_all(pools.take(i), backstop, pool, total, baseline) is None,
    ensures
        spec_allocate_all(pools, backstop, pool, total, baseline) is None,
    decreases pools.len() - i,
{
    if i == pools.len() {
        assert(pools.take(i) =~= pools);
    } else {
        assert(pools.take(i + 1).drop_last() =~= pools.take(i));
        lemma_allocate_all_overflow(pools, backstop, pool, total, baseline, i + 1);
    }
}

/// Whether a distribution can be allocated without an overflow.
pub open spec fn allocation_fits(
    state: OngoingEmissionState,
    amount: int,
    pools: Seq<WeightedPool>,
    total: int,
    baseline: Baseline,
) -> bool {
    &&& state.total_distributed + amount <= i128::MAX
    &&& spec_allocate_all(
        pools,
        backstop_part(state, amount),
        pool_part(state, amount),
        total,
        baseline,
    ) is Some
}

/// The state of all emissions after a distribution.
pub open spec fn spec_state_after(
    state: OngoingEmissionState,
    amount: int,
    checkpoint: u64,
    pools: Seq<WeightedPool>,
    total: int,
) -> OngoingEmissionState {
    let backstop = backstop_part(state, amount);
    let pool = pool_part(state, amount);
    OngoingEmissionState {
        backstop_allocated: (state.backstop_allocated + share_sum(pools, backstop, total)) as i128,
        backstop_carry: (backstop - share_sum(pools, backstop, total)) as i128,
        backstop_claimed: state.backstop_claimed,
        last_distribution: Some(checkpoint),
        pool_allocated: (state.pool_allocated + share_sum(pools, pool, total)) as i128,
        pool_carry: (pool - share_sum(pools, pool, total)) as i128,
        split_carry: spec_split(amount + state.split_carry).2 as i128,
        total_distributed: (state.total_distributed + amount) as i128,
    }
}

/// A distribution leaves every emission accounted for.
pub proof fn law_distribution_conserves_emissions(
    state: OngoingEmissionState,
    amount: int,
    checkpoint: u64,
    pools: Seq<WeightedPool>,
    total: int,
)
    requires
        state.valid(),
        state.conserves(),
        amount >= 0,
        state.total_distributed + amount <= i128::MAX,
        pools_well_formed(pools),
        weight_sum(pools) == total,
    ensures
        ({
            let next = spec_state_after(state, amount, checkpoint, pools, total);
            &&& next.valid()
            &&& next.conserves()
            &&& next.total_distributed == state.total_distributed + amount
        }),
{
    let backstop = backstop_part(state, amount);
    let pool = pool_part(state, amount);
    law_split_conserves_the_total(amount + state.split_carry);
    lemma_shares_within(pools, backstop, total);
    lemma_shares_within(pools, pool, total);
}

/// Whether `members` are the pools with their emissions after a distribution.
pub open spec fn members_after(
    members: Seq<ZoneMember>,
    pools: Seq<WeightedPool>,
    backstop: int,
    pool: int,
    total: int,
    baseline: Baseline,
) -> bool {
    spec_allocate_all(pools, backstop, pool, total, baseline) == Some(members)
}

/// Whether no pool is listed twice.
pub open spec fn no_pool_twice(pools: Seq<WeightedPool>) -> bool {
    forall|i: int, j: int|
        0 <= i < j < pools.len() ==> (#[trigger] pools[i]).pool != (#[trigger] pools[j]).pool
}

/// Allocations on the weighed records give every pool, in order, what its own weight and
/// record make of the distribution.
pub proof fn law_weighed_pools_are_allocated_alone(
    members: Seq<ZoneMember>,
    pools: Seq<WeightedPool>,
    backstop: int,
    pool: int,
    total: int,
)
    requires
        members_after(members, pools, backstop, pool, total, Baseline::Weighed),
    ensures
        members.len() == pools.len(),
        forall|i: int|
            0 <= i < pools.len() ==> (#[trigger] members[i]).pool == pools[i].pool
                && spec_member_allocation(pools[i], backstop, pool, total) == Some(
                members[i].state,
            ),
    decreases pools.len(),
{
    if pools.len() > 0 {
        let init = pools.drop_last();
        let before = spec_allocate_all(init, backstop, pool, total, Baseline::Weighed)->Some_0;
        law_weighed_pools_are_allocated_alone(before, init, backstop, pool, total);
        assert forall|i: int| 0 <= i < pools.len() implies (#[trigger] members[i]).pool
            == pools[i].pool && spec_member_allocation(pools[i], backstop, pool, total) == Some(
            members[i].state,
        ) by {
            if i < init.len() {
                assert(members[i] == before[i]);
                assert(init[i] == pools[i]);
            }
        }
    }
}

proof fn lemma_current_record_of_another(
    before: Seq<ZoneMember>,
    pool: Address,
    weighed: PoolOngoingEmissions,
)
    requires
        forall|i: int| 0 <= i < before.len() ==> (#[trigger] before[i]).pool != pool,
    ensures
        current_record(before, pool, weighed) == weighed,
    decreases before.len(),
{
    if before.len() > 0 {
        let init = before.drop_last();
        assert(before.last() == before[before.len() - 1]);
        assert(forall|i: int| 0 <= i < init.len() ==> #[trigger] init[i] == before[i]);
        lemma_current_record_of_another(init, pool, weighed);
    }
}

/// Where no pool is listed twice, as in the reward zone, it makes no difference which
/// record of it an allocation builds on.
pub proof fn law_distinct_pools_have_one_record(
    pools: Seq<WeightedPool>,
    backstop: int,
    pool: int,
    total: int,
)
    requires
        no_pool_twice(pools),
    ensures
        spec_allocate_all(pools, backstop, pool, total, Baseline::Current) == spec_allocate_all(
            pools,
            backstop,
            pool,
            total,
            Baseline::Weighed,
        ),
    decreases pools.len(),
{
    if pools.len() > 0 {
        let init = pools.drop_last();
        assert(forall|i: int| 0 <= i < init.len() ==> #[trigger] init[i] == pools[i]);
        law_distinct_pools_have_one_record(init, backstop, pool, total);
        if let Some(before) = spec_allocate_all(init, backstop, pool, total, Baseline::Weighed) {
            law_weighed_pools_are_allocated_alone(before, init, backstop, pool, total);
            let last = pools[pools.len() - 1];
            assert forall|i: int| 0 <= i < before.len() implies (#[trigger] before[i]).pool
                != last.pool by {
                assert(init[i] == pools[i]);
            }
            lemma_current_record_of_another(before, last.pool, last.state);
        }
    }
}

/// What pools hold for the depositors in their tiers: what is pending and what is
/// carried on.
pub open spec fn held_for_tiers(states: Seq<PoolOngoingEmissions>) -> int
    decreases states.len(),
{
    if states.len() == 0 {
        0
    } else {
        held_for_tiers(states.drop_last()) + states.last().pending_blnd_usdc
            + states.last().pending_blnd_xlm + states.last().backstop_tier_carry
    }
}

/// What pools hold for themselves.
pub open spec fn held_for_pools(states: Seq<PoolOngoingEmissions>) -> int
    decreases states.len(),
{
    if states.len() == 0 {
        0
    } else {
        held_for_pools(states.drop_last()) + states.last().accrued_pool
    }
}

/// The emissions of weighted pools.
pub open spec fn states_of_pools(pools: Seq<WeightedPool>) -> Seq<PoolOngoingEmissions> {
    pools.map_values(|pool: WeightedPool| pool.state)
}

/// The emissions of members.
pub open spec fn states_of_members(members: Seq<ZoneMember>) -> Seq<PoolOngoingEmissions> {
    members.map_values(|member: ZoneMember| member.state)
}

/// The pools hold, after a distribution, exactly what they held before and what the
/// distribution counts as allocated to them.
pub proof fn law_pools_hold_what_is_allocated(
    members: Seq<ZoneMember>,
    pools: Seq<WeightedPool>,
    backstop: int,
    pool: int,
    total: int,
    baseline: Baseline,
)
    requires
        pools_well_formed(pools),
        weight_sum(pools) <= total,
        backstop >= 0,
        pool >= 0,
        members_after(members, pools, backstop, pool, total, baseline),
        baseline == Baseline::Weighed || no_pool_twice(pools),
    ensures
        held_for_tiers(states_of_members(members)) == held_for_tiers(states_of_pools(pools))
            + share_sum(pools, backstop, total),
        held_for_pools(states_of_members(members)) == held_for_pools(states_of_pools(pools))
            + share_sum(pools, pool, total),
    decreases pools.len(),
{
    if pools.len() > 0 {
        let n = pools.len() - 1;
        let init = pools.drop_last();
        let last = pools[n];
        assert(pools_well_formed(init)) by {
            assert(forall|i: int| 0 <= i < init.len() ==> #[trigger] init[i] == pools[i]);
        }
        lemma_shares_within(init, backstop, total);
        if baseline == Baseline::Current {
            law_distinct_pools_have_one_record(pools, backstop, pool, total);
        }
        law_weighed_pools_are_allocated_alone(members, pools, backstop, pool, total);
        let before = spec_allocate_all(init, backstop, pool, total, Baseline::Weighed)->Some_0;
        assert(members.drop_last() =~= before);
        law_pools_hold_what_is_allocated(
            before,
            init,
            backstop,
            pool,
            total,
            Baseline::Weighed,
        );
        assert(states_of_members(members).drop_last() =~= states_of_members(members.drop_last()));
        assert(states_of_pools(pools).drop_last() =~= states_of_pools(init));
        assert(members[n].pool == pools[n].pool);
        if last.weight() > 0 {
            lemma_part_of_value(backstop, last.weight(), total);
            lemma_part_of_value(pool, last.weight(), total);
            law_tier_allocation_conserves(
                last.state,
                last.blnd_usdc as int,
                last.blnd_xlm as int,
                share_of(backstop, last.weight(), total),
            );
        } else if total != 0 {
            assert(backstop * last.weight() / total == 0 && pool * last.weight() / total == 0)
                by (nonlinear_arith)
                requires
                    last.weight() == 0,
                    total != 0,
            ;
        }
    }
}

/// Allocate one pool's part of a distribution.
fn allocate_member(
    e: &Env,
    pool: &WeightedPool,
    backstop_distribution: i128,
    pool_distribution: i128,
    total_eligible_blnd: i128,
) -> (r: Result<(ZoneMember, i128, i128), BackstopError>)
    requires
        pool.well_formed(),
        pool.weight() <= total_eligible_blnd,
        backstop_distribution >= 0,
        pool_distribution >= 0,
    ensures
        ({
            let spec = spec_member_allocation(
                *pool,
                backstop_distribution as int,
                pool_distribution as int,
                total_eligible_blnd as int,
            );
            match r {
                Ok((member, backstop, own)) => {
                    &&& spec == Some(member.state)
                    &&& member.state.valid()
                    &&& member.pool == pool.pool
                    &&& backstop == share_of(
                        backstop_distribution as int,
                        pool.weight(),
                        total_eligible_blnd as int,
                    )
                    &&& own == share_of(
                        pool_distribution as int,
                        pool.weight(),
                        total_eligible_blnd as int,
                    )
                    &&& backstop >= 0
                    &&& own >= 0
                },
                Err(error) => spec is None && error == BackstopError::OverflowError,
            }
        }),
{
    let weight: i128 = checked_add(pool.blnd_usdc, pool.blnd_xlm)?;
    proof {
        if total_eligible_blnd > 0 {
            lemma_part_of_value(
                backstop_distribution as int,
                weight as int,
                total_eligible_blnd as int,
            );
            lemma_part_of_value(
                pool_distribution as int,
                weight as int,
                total_eligible_blnd as int,
            );
        }
    }
    let backstop_allocation: i128 = if total_eligible_blnd == 0 {
        0
    } else {
        proportional_floor(e, backstop_distribution, weight, total_eligible_blnd)?
    };
    let pool_allocation: i128 = if total_eligible_blnd == 0 {
        0
    } else {
        proportional_floor(e, pool_distribution, weight, total_eligible_blnd)?
    };
    let mut state: PoolOngoingEmissions = pool.state;
    allocate_pool_backstop_emissions(
        e,
        &mut state,
        pool.blnd_usdc,
        pool.blnd_xlm,
        backstop_allocation,
    )?;
    state.accrued_pool = checked_add(state.accrued_pool, pool_allocation)?;
    validate_pool_ongoing_emissions(&state)?;
    Ok((ZoneMember { pool: pool.pool, state }, backstop_allocation, pool_allocation))
}

/// A pool with the record that an allocation to it builds on.
fn based(baseline: Baseline, before: &Vec<ZoneMember>, pool: &WeightedPool) -> (r: WeightedPool)
    requires
        pool.well_formed(),
        forall|i: int| 0 <= i < before@.len() ==> (#[trigger] before@[i]).state.valid(),
    ensures
        r == spec_based(baseline, before@, *pool),
        r.well_formed(),
{
    if baseline == Baseline::Weighed {
        return *pool;
    }
    let mut index: usize = before.len();
    assert(before@.take(index as int) =~= before@);
    while index > 0
        invariant
            index <= before@.len(),
            pool.well_formed(),
            baseline == Baseline::Current,
            forall|i: int| 0 <= i < before@.len() ==> (#[trigger] before@[i]).state.valid(),
            current_record(before@, pool.pool, pool.state) == current_record(
                before@.take(index as int),
                pool.pool,
                pool.state,
            ),
        decreases index,
    {
        proof {
            let rest = before@.take(index as int);
            assert(rest.last() == before@[index - 1]);
            assert(rest.drop_last() =~= before@.take(index - 1));
        }
        let member: ZoneMember = before[index - 1];
        if member.pool == pool.pool {
            return WeightedPool {
                pool: pool.pool,
                state: member.state,
                blnd_usdc: pool.blnd_usdc,
                blnd_xlm: pool.blnd_xlm,
            };
        }
        index = index - 1;
    }
    *pool
}

/// Allocate emissions to the pools of the reward zone: 70% to their tiers, 30% to
/// the pools themselves, by weight. What rounding leaves over is carried on.
pub fn allocate_distribution(
    e: &Env,
    state: &mut OngoingEmissionState,
    amount: i128,
    checkpoint: u64,
    pools: &Vec<WeightedPool>,
    total_eligible_blnd: i128,
    baseline: Baseline,
) -> (r: Result<Allocation, BackstopError>)
    requires
        old(state).valid(),
        old(state).conserves(),
        pools_well_formed(pools@),
        weight_sum(pools@) == total_eligible_blnd,
    ensures
        if amount < 0 {
            &&& r matches Err(error) && error == BackstopError::InvalidEmissionValue
            &&& *final(state) == *old(state)
        } else if !allocation_fits(
            *old(state),
            amount as int,
            pools@,
            total_eligible_blnd as int,
            baseline,
        ) {
            &&& r matches Err(error) && error == BackstopError::OverflowError
            &&& *final(state) == *old(state)
        } else {
            let backstop = backstop_part(*old(state), amount as int);
            let pool = pool_part(*old(state), amount as int);
            &&& *final(state) == spec_state_after(
                *old(state),
                amount as int,
                checkpoint,
                pools@,
                total_eligible_blnd as int,
            )
            &&& final(state).valid()
            &&& final(state).conserves()
            &&& r matches Ok(allocation) && {
                &&& allocation.distributed == amount
                &&& allocation.eligible_blnd == total_eligible_blnd
                &&& allocation.backstop_allocated == share_sum(
                    pools@,
                    backstop,
                    total_eligible_blnd as int,
                )
                &&& allocation.pool_allocated == share_sum(
                    pools@,
                    pool,
                    total_eligible_blnd as int,
                )
                &&& members_after(
                    allocation.members@,
                    pools@,
                    backstop,
                    pool,
                    total_eligible_blnd as int,
                    baseline,
                )
            }
        },
{
    let ghost total = total_eligible_blnd as int;
    let split: (i128, i128, i128) = quote_ongoing_blnt_split(e, amount, state.split_carry)?;
    proof {
        law_split_conserves_the_total(amount + state.split_carry);
    }
    let backstop_distribution: i128 = checked_add(split.0, state.backstop_carry)?;
    let pool_distribution: i128 = checked_add(split.1, state.pool_carry)?;
    proof {
        lemma_shares_within(pools@, backstop_distribution as int, total);
        lemma_shares_within(pools@, pool_distribution as int, total);
    }
    let mut members: Vec<ZoneMember> = Vec::new();
    let mut backstop_allocated: i128 = 0;
    let mut pool_allocated: i128 = 0;
    let mut index: usize = 0;
    while index < pools.len()
        invariant
            index <= pools@.len(),
            pools_well_formed(pools@),
            weight_sum(pools@) == total_eligible_blnd,
            total == total_eligible_blnd,
            amount >= 0,
            *state == *old(state),
            backstop_distribution == backstop_part(*state, amount as int),
            pool_distribution == pool_part(*state, amount as int),
            backstop_distribution >= 0,
            pool_distribution >= 0,
            backstop_allocated == share_sum(
                pools@.take(index as int),
                backstop_distribution as int,
                total,
            ),
            pool_allocated == share_sum(
                pools@.take(index as int),
                pool_distribution as int,
                total,
            ),
            members_after(
                members@,
                pools@.take(index as int),
                backstop_distribution as int,
                pool_distribution as int,
                total,
                baseline,
            ),
            forall|i: int| 0 <= i < members@.len() ==> (#[trigger] members@[i]).state.valid(),
        decreases pools@.len() - index,
    {
        proof {
            let next = pools@.take(index + 1);
            assert(next.drop_last() =~= pools@.take(index as int));
            assert(next.last() == pools@[index as int]);
            lemma_weight_prefix(pools@, index as int);
            lemma_weight_prefix(pools@, index + 1);
            lemma_shares_within(next, backstop_distribution as int, total);
            lemma_shares_within(next, pool_distribution as int, total);
            if spec_allocate_all(
                next,
                backstop_distribution as int,
                pool_distribution as int,
                total,
                baseline,
            ) is None {
                lemma_allocate_all_overflow(
                    pools@,
                    backstop_distribution as int,
                    pool_distribution as int,
                    total,
                    baseline,
                    index + 1,
                );
            }
        }
        let pool: WeightedPool = based(baseline, &members, &pools[index]);
        let part: (ZoneMember, i128, i128) = allocate_member(
            e,
            &pool,
            backstop_distribution,
            pool_distribution,
            total_eligible_blnd,
        )?;
        backstop_allocated = checked_add(backstop_allocated, part.1)?;
        pool_allocated = checked_add(pool_allocated, part.2)?;
        members.push(part.0);
        index = index + 1;
    }
    assert(pools@.take(index as int) =~= pools@);
    let total_distributed: i128 = checked_add(state.total_distributed, amount)?;
    proof {
        law_distribution_conserves_emissions(*state, amount as int, checkpoint, pools@, total);
    }
    let next = OngoingEmissionState {
        backstop_allocated: checked_add(state.backstop_allocated, backstop_allocated)?,
        backstop_carry: checked_sub(backstop_distribution, backstop_allocated)?,
        backstop_claimed: state.backstop_claimed,
        last_distribution: Some(checkpoint),
        pool_allocated: checked_add(state.pool_allocated, pool_allocated)?,
        pool_carry: checked_sub(pool_distribution, pool_allocated)?,
        split_carry: split.2,
        total_distributed,
    };
    set_ongoing_emission_state(&next)?;
    *state = next;
    Ok(
        Allocation {
            distributed: amount,
            eligible_blnd: total_eligible_blnd,
            backstop_allocated,
            pool_allocated,
            members,
        },
    )
}

/// The state with a later checkpoint and nothing distributed.
pub open spec fn spec_at_checkpoint(
    state: OngoingEmissionState,
    checkpoint: u64,
) -> OngoingEmissionState {
    OngoingEmissionState { last_distribution: Some(checkpoint), ..state }
}

/// Move the checkpoint on without a distribution.
pub fn advance_without_distribution(state: &mut OngoingEmissionState, checkpoint: u64) -> (r:
    Result<i128, BackstopError>)
    ensures
        match spec_check_state(spec_at_checkpoint(*old(state), checkpoint)) {
            Ok(_) => {
                &&& r == Ok::<i128, BackstopError>(0)
                &&& *final(state) == spec_at_checkpoint(*old(state), checkpoint)
            },
            Err(error) => {
                &&& r == Err::<i128, BackstopError>(error)
                &&& *final(state) == *old(state)
            },
        },
{
    let mut next: OngoingEmissionState = *state;
    next.last_distribution = Some(checkpoint);
    set_ongoing_emission_state(&next)?;
    *state = next;
    Ok(0)
}

/// What a pool weighs: the BLND behind its active shares once the migration is
/// active, before that its active BLND:USDC LP tokens.
pub fn pool_weight(
    e: &Env,
    is_active: bool,
    blnd_usdc: &Option<LpPosition>,
    blnd_xlm: &Option<LpPosition>,
) -> (r: Result<i128, BackstopError>)
    requires
        blnd_usdc matches Some(p) ==> (p.balance.well_formed() ==> p.balance.tokens_for_fits(
            p.balance.shares - p.balance.q4w,
        )),
        blnd_xlm matches Some(p) ==> (p.balance.well_formed() ==> p.balance.tokens_for_fits(
            p.balance.shares - p.balance.q4w,
        )),
    ensures
        r matches Ok(weight) ==> if is_active {
            exists|first: int, second: int|
                {
                    &&& #[trigger] weighs(*blnd_usdc, first)
                    &&& #[trigger] weighs(*blnd_xlm, second)
                    &&& weight == first + second
                }
        } else {
            match *blnd_usdc {
                Some(p) => stands_behind(p.balance, p.balance.shares - p.balance.q4w, weight as int),
                None => weight == 0,
            }
        },
        r == if is_active {
            spec_spot_weight(*blnd_usdc, *blnd_xlm)
        } else {
            match *blnd_usdc {
                Some(p) => spec_active_assets(p.balance),
                None => Ok(0),
            }
        },
{
    if is_active {
        proof {
            law_pools_weigh_both_positions(*blnd_usdc, *blnd_xlm);
        }
        return pool_spot_blnt_emission_weight(e, blnd_usdc, blnd_xlm);
    }
    proof {
        if let Some(p) = *blnd_usdc {
            law_tiers_weigh_the_tokens_that_are_not_queued(p.balance);
        }
    }
    match blnd_usdc {
        Some(p) => pool_active_emission_assets(&p.balance),
        None => Ok(0),
    }
}

/// The active tokens of a tier that a pool may not have.
pub open spec fn spec_tier_assets(balance: Option<PoolBalance>) -> Result<i128, BackstopError> {
    match balance {
        Some(balance) => spec_active_assets(balance),
        None => Ok(0),
    }
}

fn tier_assets(balance: &Option<PoolBalance>) -> (r: Result<i128, BackstopError>)
    requires
        balance matches Some(b) ==> (b.well_formed() ==> b.tokens_for_fits(b.shares - b.q4w)),
    ensures
        r == spec_tier_assets(*balance),
{
    match balance {
        Some(balance) => pool_active_emission_assets(balance),
        None => Ok(0),
    }
}

/// A pool's emissions with its active LP tokens brought up to date, or the first objection.
pub open spec fn spec_refreshed(
    state: PoolOngoingEmissions,
    blnd_usdc: Option<PoolBalance>,
    blnd_xlm: Option<PoolBalance>,
) -> Result<PoolOngoingEmissions, BackstopError> {
    if !state.valid() {
        Err(BackstopError::InvalidEmissionValue)
    } else {
        match (spec_tier_assets(blnd_usdc), spec_tier_assets(blnd_xlm)) {
            (Err(error), _) => Err(error),
            (_, Err(error)) => Err(error),
            (Ok(active_blnd_usdc), Ok(active_blnd_xlm)) => Ok(
                PoolOngoingEmissions { active_blnd_usdc, active_blnd_xlm, ..state },
            ),
        }
    }
}

/// Whether the active tokens of a balance can be counted without an overflow.
pub open spec fn active_fits(balance: Option<PoolBalance>) -> bool {
    balance matches Some(b) ==> (b.well_formed() ==> b.tokens_for_fits(b.shares - b.q4w))
}

/// Bring a pool's active LP tokens up to date for the next distribution.
pub fn refresh_pool_ongoing_assets(
    state: &mut PoolOngoingEmissions,
    blnd_usdc: &Option<PoolBalance>,
    blnd_xlm: &Option<PoolBalance>,
) -> (r: Result<(), BackstopError>)
    requires
        active_fits(*blnd_usdc),
        active_fits(*blnd_xlm),
    ensures
        match spec_refreshed(*old(state), *blnd_usdc, *blnd_xlm) {
            Ok(next) => {
                &&& r == Ok::<(), BackstopError>(())
                &&& *final(state) == next
                &&& next.valid()
            },
            Err(error) => {
                &&& r == Err::<(), BackstopError>(error)
                &&& *final(state) == *old(state)
            },
        },
{
    validate_pool_ongoing_emissions(&*state)?;
    proof {
        if let Some(b) = *blnd_usdc {
            if b.well_formed() {
                lemma_tokens_for_bounds(b, b.shares - b.q4w);
            }
        }
        if let Some(b) = *blnd_xlm {
            if b.well_formed() {
                lemma_tokens_for_bounds(b, b.shares - b.q4w);
            }
        }
    }
    let active_blnd_usdc: i128 = tier_assets(blnd_usdc)?;
    let active_blnd_xlm: i128 = tier_assets(blnd_xlm)?;
    let mut next: PoolOngoingEmissions = *state;
    next.active_blnd_usdc = active_blnd_usdc;
    next.active_blnd_xlm = active_blnd_xlm;
    validate_pool_ongoing_emissions(&next)?;
    *state = next;
    Ok(())
}

/// The stream of one tier and one user's record of it.
#[derive(Clone, Copy, Debug, PartialEq, Eq, Structural)]
pub struct WeightStreams {
    pub emission: Option<BackstopEmissionData>,
    pub user: Option<UserEmissionData>,
}

/// The stream and the record once they count all that was earned before a weight
/// change. `change` says whether the tier earns emissions, or why its weight may
/// not change.
pub open spec fn spec_weight_checkpoint(
    change: Result<bool, BackstopError>,
    streams: WeightStreams,
    pool: PoolBalance,
    user_shares: i128,
    now: u64,
) -> Result<WeightStreams, BackstopError> {
    match change {
        Err(error) => Err(error),
        Ok(eligible) => if !eligible {
            Ok(streams)
        } else {
            match spec_checkpoint(streams.emission, streams.user, pool, user_shares, now) {
                Err(error) => Err(error),
                Ok(next) => Ok(WeightStreams { emission: next.0, user: next.1 }),
            }
        },
    }
}

/// Bring a stream and a user's record up to date before the weight of an eligible
/// tier changes.
pub fn checkpoint_user_ongoing_for_weight_change(
    e: &Env,
    change: Result<bool, BackstopError>,
    streams: &WeightStreams,
    pool_balance: &PoolBalance,
    user_shares: i128,
    now: u64,
) -> (r: Result<WeightStreams, BackstopError>)
    requires
        checkpoint_fits(streams.user, *pool_balance),
    ensures
        r == spec_weight_checkpoint(change, *streams, *pool_balance, user_shares, now),
{
    let emission_eligible: bool = change?;
    if !emission_eligible {
        return Ok(*streams);
    }
    let mut emission = streams.emission;
    let mut user = streams.user;
    update_emissions(e, &mut emission, &mut user, pool_balance, user_shares, now)?;
    Ok(WeightStreams { emission, user })
}

/// Whether a weight change concerns emissions, and whether it is allowed: weights only
/// stand still in tiers that earn emissions.
pub fn prepare_pool_weight_change(
    config: &Vec<BackstopTierConfig>,
    tier: BackstopTier,
    is_active: bool,
    is_current_backstop: bool,
) -> (r: Result<bool, BackstopError>)
    ensures
        r == match spec_tier_config(config@, tier) {
            Err(error) => Err(error),
            Ok(c) => if !spec_is_blnd_asset(spec_from_factory_asset(c.asset)) {
                Ok(false)
            } else {
                match spec_weight_mutation_gate(is_active, is_current_backstop) {
                    Ok(_) => Ok(true),
                    Err(error) => Err(error),
                }
            },
        },
{
    let emission_eligible: bool = is_blnd_emission_tier(config, tier)?;
    if emission_eligible {
        require_weight_mutation_allowed(is_active, is_current_backstop)?;
    }
    Ok(emission_eligible)
}

/// Keep a pool's active LP tokens current after the weight of an eligible tier has changed.
pub fn finish_pool_weight_change(
    state: &mut PoolOngoingEmissions,
    blnd_usdc: &Option<PoolBalance>,
    blnd_xlm: &Option<PoolBalance>,
    emission_eligible: bool,
) -> (r: Result<(), BackstopError>)
    requires
        emission_eligible ==> active_fits(*blnd_usdc) && active_fits(*blnd_xlm),
    ensures
        if !emission_eligible {
            &&& r == Ok::<(), BackstopError>(())
            &&& *final(state) == *old(state)
        } else {
            match spec_refreshed(*old(state), *blnd_usdc, *blnd_xlm) {
                Ok(next) => {
                    &&& r == Ok::<(), BackstopError>(())
                    &&& *final(state) == next
                },
                Err(error) => {
                    &&& r == Err::<(), BackstopError>(error)
                    &&& *final(state) == *old(state)
                },
            }
        },
{
    if emission_eligible {
        refresh_pool_ongoing_assets(state, blnd_usdc, blnd_xlm)?;
    }
    Ok(())
}

/// One pool as its emissions are weighed: its record with the balances of its LP tiers,
/// where it has them, and the asset of the tier that is about to change.
#[derive(Clone, Copy, Debug, PartialEq, Eq, Structural)]
pub struct PoolWeights {
    pub asset: BackstopAsset,
    pub state: PoolOngoingEmissions,
    pub blnd_usdc: Option<PoolBalance>,
    pub blnd_xlm: Option<PoolBalance>,
}

impl PoolWeights {
    /// The pool with a new balance of the tier that changes.
    pub open spec fn with_tier(self, balance: PoolBalance) -> PoolWeights {
        match self.asset {
            BackstopAsset::BlndUsdc => PoolWeights { blnd_usdc: Some(balance), ..self },
            BackstopAsset::BlndXlm => PoolWeights { blnd_xlm: Some(balance), ..self },
            _ => self,
        }
    }

    /// The pool after a change that leaves the changed tier with `balance`: where the
    /// tier earns emissions, the record counts the LP tokens that are active then.
    pub open spec fn after_change(self, balance: PoolBalance, emission_eligible: bool) -> Result<
        PoolWeights,
        BackstopError,
    > {
        let next = self.with_tier(balance);
        if !emission_eligible {
            Ok(next)
        } else {
            match spec_refreshed(next.state, next.blnd_usdc, next.blnd_xlm) {
                Ok(state) => Ok(PoolWeights { state, ..next }),
                Err(error) => Err(error),
            }
        }
    }

    /// Whether the active LP tokens can be counted without an overflow.
    pub open spec fn fits(self) -> bool {
        active_fits(self.blnd_usdc) && active_fits(self.blnd_xlm)
    }

    /// The pool after a change that leaves the changed tier with `balance`.
    pub fn changed(&self, balance: &PoolBalance, emission_eligible: bool) -> (r: Result<
        PoolWeights,
        BackstopError,
    >)
        requires
            emission_eligible ==> self.with_tier(*balance).fits(),
        ensures
            r == self.after_change(*balance, emission_eligible),
    {
        let mut next: PoolWeights = *self;
        match self.asset {
            BackstopAsset::BlndUsdc => {
                next.blnd_usdc = Some(*balance);
            },
            BackstopAsset::BlndXlm => {
                next.blnd_xlm = Some(*balance);
            },
            _ => {},
        }
        let mut state: PoolOngoingEmissions = next.state;
        finish_pool_weight_change(&mut state, &next.blnd_usdc, &next.blnd_xlm, emission_eligible)?;
        next.state = state;
        Ok(next)
    }
}

/// After a change of a tier that earns emissions, the record counts exactly the active
/// LP tokens of the balances as they are then, and all else of it is as before.
pub proof fn law_changes_keep_the_record_current(weights: PoolWeights, balance: PoolBalance)
    ensures
        weights.after_change(balance, true) matches Ok(next) ==> {
            &&& next.blnd_usdc == weights.with_tier(balance).blnd_usdc
            &&& next.blnd_xlm == weights.with_tier(balance).blnd_xlm
            &&& spec_tier_assets(next.blnd_usdc) == Ok::<i128, BackstopError>(
                next.state.active_blnd_usdc,
            )
            &&& spec_tier_assets(next.blnd_xlm) == Ok::<i128, BackstopError>(
                next.state.active_blnd_xlm,
            )
            &&& next.state == (PoolOngoingEmissions {
                active_blnd_usdc: next.state.active_blnd_usdc,
                active_blnd_xlm: next.state.active_blnd_xlm,
                ..weights.state
            })
        },
{
}

/// No LP composition is needed before the migration is active.
pub open spec fn no_compositions() -> LpCompositions {
    LpCompositions {
        blnd_usdc_supply: 0,
        blnd_usdc_reserve: 0,
        blnd_xlm_supply: 0,
        blnd_xlm_reserve: 0,
    }
}

/// What a backfill checkpoint has to do.
#[derive(Clone, Copy, Debug, PartialEq, Eq, Structural)]
pub enum BackfillPlan {
    /// Only move the checkpoint on.
    Advance,
    /// Distribute this amount.
    Distribute(i128),
}

/// What a backfill checkpoint has to do: one token for each second since the last
/// one, as far as the cap leaves room; nothing while no pool has weight.
pub open spec fn spec_backfill_plan(
    is_active: bool,
    state: OngoingEmissionState,
    checkpoint: u64,
    members: Seq<ZoneMember>,
    scheduled: i128,
) -> Result<BackfillPlan, BackstopError> {
    if is_active {
        Err(BackstopError::AlreadyFinalized)
    } else if !state.valid() {
        Err(BackstopError::InvalidEmissionValue)
    } else if state.last_distribution is None {
        Err(BackstopError::MigrationEpochNotOpen)
    } else if checkpoint < state.last_distribution->Some_0 {
        Err(BackstopError::InvalidOngoingBalance)
    } else {
        match spec_collect_weights(members, false, no_compositions()) {
            Err(error) => Err(error),
            Ok((_, total)) => if total == 0 {
                Ok(BackfillPlan::Advance)
            } else {
                let accrued = (checkpoint - state.last_distribution->Some_0) * SCALAR_7;
                match spec_balance_sub(MAX_BACKFILLED_EMISSIONS as int, scheduled as int) {
                    Err(error) => Err(error),
                    Ok(remaining) => Ok(
                        BackfillPlan::Distribute(
                            if accrued <= remaining {
                                accrued as i128
                            } else {
                                remaining
                            },
                        ),
                    ),
                }
            },
        }
    }
}

/// Accrue migration backfill through the ordinary 70/30 emission pipeline.
/// Before activation, active BLND:USDC LP tokens directly determine pool
/// weight, and only that tier receives pending backstop emissions.
/// `scheduled` is all backfill scheduled so far.
pub fn checkpoint_backfill(
    e: &Env,
    is_active: bool,
    state: &mut OngoingEmissionState,
    checkpoint: u64,
    members: &Vec<ZoneMember>,
    scheduled: &mut i128,
    baseline: Baseline,
) -> (r: Result<Allocation, BackstopError>)
    requires
        old(state).conserves(),
    ensures
        match spec_backfill_plan(is_active, *old(state), checkpoint, members@, *old(scheduled)) {
            Err(error) => {
                &&& r matches Err(e) && e == error
                &&& *final(state) == *old(state)
                &&& *final(scheduled) == *old(scheduled)
            },
            Ok(BackfillPlan::Advance) => {
                &&& *final(state) == spec_at_checkpoint(*old(state), checkpoint)
                &&& *final(scheduled) == *old(scheduled)
                &&& r matches Ok(allocation) && {
                    &&& allocation.distributed == 0
                    &&& allocation.eligible_blnd == 0
                    &&& allocation.backstop_allocated == 0
                    &&& allocation.pool_allocated == 0
                    &&& allocation.members@ == members@
                }
            },
            Ok(BackfillPlan::Distribute(amount)) => {
                let (pools, total) = spec_collect_weights(
                    members@,
                    false,
                    no_compositions(),
                )->Ok_0;
                let backstop = backstop_part(*old(state), amount as int);
                let pool = pool_part(*old(state), amount as int);
                if !allocation_fits(*old(state), amount as int, pools, total as int, baseline) {
                    &&& r matches Err(e) && e == BackstopError::OverflowError
                    &&& *final(state) == *old(state)
                    &&& *final(scheduled) == *old(scheduled)
                } else {
                    &&& *final(state) == spec_state_after(
                        *old(state),
                        amount as int,
                        checkpoint,
                        pools,
                        total as int,
                    )
                    &&& final(state).valid()
                    &&& final(state).conserves()
                    &&& *final(scheduled) == *old(scheduled) + amount
                    &&& *final(scheduled) <= MAX_BACKFILLED_EMISSIONS
                    &&& r matches Ok(allocation) && {
                        &&& allocation.distributed == amount
                        &&& allocation.eligible_blnd == total
                        &&& allocation.backstop_allocated == share_sum(
                            pools,
                            backstop,
                            total as int,
                        )
                        &&& allocation.pool_allocated == share_sum(pools, pool, total as int)
                        &&& members_after(
                            allocation.members@,
                            pools,
                            backstop,
                            pool,
                            total as int,
                            baseline,
                        )
                    }
                }
            },
        },
{
    if is_active {
        return Err(BackstopError::AlreadyFinalized);
    }
    validate_ongoing_emission_state(&*state)?;
    let last_distribution: u64 = match state.last_distribution {
        Some(last_distribution) => last_distribution,
        None => return Err(BackstopError::MigrationEpochNotOpen),
    };
    if checkpoint < last_distribution {
        return Err(BackstopError::InvalidOngoingBalance);
    }
    let lp = LpCompositions {
        blnd_usdc_supply: 0,
        blnd_usdc_reserve: 0,
        blnd_xlm_supply: 0,
        blnd_xlm_reserve: 0,
    };
    proof {
        law_collected_weights_add_up(members@, false, lp);
    }
    let weights: (Vec<WeightedPool>, i128) = collect_weights(e, members, false, &lp)?;
    if weights.1 == 0 {
        advance_without_distribution(state, checkpoint)?;
        return Ok(
            Allocation {
                distributed: 0,
                eligible_blnd: 0,
                backstop_allocated: 0,
                pool_allocated: 0,
                members: copy_members(members),
            },
        );
    }
    let accrued: i128 = emissions_for_seconds(checkpoint - last_distribution);
    let remaining: i128 = checked_sub(MAX_BACKFILLED_EMISSIONS, *scheduled)?;
    let amount: i128 = if accrued <= remaining {
        accrued
    } else {
        remaining
    };
    let allocation = allocate_distribution(
        e,
        state,
        amount,
        checkpoint,
        &weights.0,
        weights.1,
        baseline,
    )?;
    record_backfill_distribution(scheduled, amount)?;
    Ok(allocation)
}

/// A copy of a list of pools.
pub(crate) fn copy_members(members: &Vec<ZoneMember>) -> (r: Vec<ZoneMember>)
    ensures
        r@ == members@,
{
    let mut copy: Vec<ZoneMember> = Vec::new();
    let mut index: usize = 0;
    while index < members.len()
        invariant
            index <= members@.len(),
            copy@ == members@.take(index as int),
        decreases members@.len() - index,
    {
        copy.push(members[index]);
        assert(members@.take(index + 1) =~= members@.take(index as int).push(
            members@[index as int],
        ));
        index = index + 1;
    }
    assert(members@.take(index as int) =~= members@);
    copy
}

} // verus!
