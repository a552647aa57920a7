//! Which pools enter and leave the reward zone, and what they weigh there.

use vstd::prelude::*;

use super::policy::{
    lemma_part_of_value, spec_active_assets, spec_spot_underlying, spec_spot_weight, LpPosition,
};
use super::reward_zone::{
    spec_add_error, spec_distributed_recently, spec_remove_error, spec_without, spec_zone_with,
    Departing, Entrant, Leaver,
};
use super::tier_accounting::spec_refreshed;
use crate::backstop::pool::PoolBalance;
use crate::backstop::share_laws::{
    holds_active, law_tiers_weigh_the_tokens_that_are_not_queued, stands_behind,
};
use crate::collections::first_at;
use crate::errors::BackstopError;
use crate::math::{is_floor_of, lemma_floor};
use crate::storage::{PoolOngoingEmissions, ZoneClock};
use crate::Address;

verus! {

/// Whether the zone's last distribution is at most an hour old, or none has been made.
pub open spec fn within_the_hour(clock: ZoneClock, now: u64) -> bool {
    clock.started ==> clock.checkpoint is Some && clock.checkpoint->Some_0 <= now && now
        <= clock.checkpoint->Some_0 + 3_600
}

/// The zone counts as distributed for an hour.
pub proof fn law_checkpoints_hold_for_an_hour(clock: ZoneClock, now: u64)
    ensures
        spec_distributed_recently(clock, now) <==> within_the_hour(clock, now),
{
}

/// A pool enters where it is not in the zone, is worth the threshold and weighs something.
/// The zone has thirty places. Where none is free, the pool replaces a member that weighs
/// less. Where the zone has members, it has been distributed to within the hour.
pub proof fn law_pools_enter_by_worth_and_weight(
    gate: Result<(), BackstopError>,
    zone: Seq<Address>,
    entrant: Entrant,
    leaver: Option<Leaver>,
    needs_checkpoint: bool,
    clock: ZoneClock,
    now: u64,
)
    ensures
        spec_add_error(gate, zone, entrant, leaver, needs_checkpoint, clock, now) is None <==> {
            &&& gate is Ok
            &&& zone.len() <= 30
            &&& !zone.contains(entrant.pool)
            &&& entrant.activation is Ok && entrant.activation->Ok_0.meets_threshold
            &&& entrant.weight is Ok && entrant.weight->Ok_0 > 0
            &&& needs_checkpoint ==> within_the_hour(clock, now)
            &&& zone.len() == 30 ==> {
                &&& leaver is Some
                &&& zone.contains(leaver->Some_0.pool)
                &&& leaver->Some_0.weight is Ok
                &&& leaver->Some_0.weight->Ok_0 < entrant.weight->Ok_0
            }
        },
{
}

/// A newcomer stands first. The members keep their order, and where the zone was full, the
/// one that is replaced is gone from it.
pub proof fn law_newcomers_stand_first(zone: Seq<Address>, pool: Address, leaver: Option<Leaver>)
    requires
        zone.len() == 30 ==> leaver is Some && zone.contains(leaver->Some_0.pool),
        zone.len() <= 30,
    ensures
        ({
            let next = spec_zone_with(zone, pool, leaver);
            &&& next.len() == if zone.len() < 30 {
                (zone.len() + 1) as nat
            } else {
                zone.len()
            }
            &&& next[0] == pool
            &&& zone.len() < 30 ==> forall|i: int|
                0 <= i < zone.len() ==> next[i + 1] == #[trigger] zone[i]
            &&& zone.len() == 30 ==> exists|at: int|
                {
                    &&& 0 <= at < 30
                    &&& #[trigger] zone[at] == leaver->Some_0.pool
                    &&& forall|i: int| 0 <= i < at ==> next[i + 1] == #[trigger] zone[i]
                    &&& forall|i: int| at < i < 30 ==> next[i] == #[trigger] zone[i]
                }
        }),
{
    if zone.len() == 30 {
        let gone = leaver->Some_0.pool;
        let at = lemma_place(zone, gone);
        assert(zone[at] == gone);
    }
}

proof fn lemma_place(zone: Seq<Address>, pool: Address) -> (at: int)
    requires
        zone.contains(pool),
    ensures
        first_at(zone, pool, at),
        spec_without(zone, pool) == zone.remove(at),
{
    let some = choose|i: int| 0 <= i < zone.len() && zone[i] == pool;
    let first = lemma_earliest(zone, pool, some);
    choose|i: int| first_at(zone, pool, i)
}

proof fn lemma_earliest(zone: Seq<Address>, pool: Address, i: int) -> (first: int)
    requires
        0 <= i < zone.len(),
        zone[i] == pool,
    ensures
        first_at(zone, pool, first),
    decreases i,
{
    if forall|j: int| 0 <= j < i ==> zone[j] != pool {
        i
    } else {
        let j = choose|j: int| 0 <= j < i && zone[j] == pool;
        lemma_earliest(zone, pool, j)
    }
}

/// A member is removed where it weighs nothing, or where it is no longer worth the
/// threshold and the zone has been distributed to within the hour.
pub proof fn law_members_leave_for_want_of_worth(
    gate: Result<(), BackstopError>,
    zone: Seq<Address>,
    departing: Departing,
    clock: ZoneClock,
    now: u64,
)
    ensures
        spec_remove_error(gate, zone, departing, clock, now) is None <==> {
            &&& gate is Ok
            &&& zone.len() <= 30
            &&& zone.contains(departing.pool)
            &&& departing.weight is Ok
            &&& departing.weight->Ok_0 > 0 ==> {
                &&& departing.activation is Ok
                &&& !departing.activation->Ok_0.meets_threshold
                &&& within_the_hour(clock, now)
            }
        },
{
}

/// Those that stay when a member is removed keep their order.
pub proof fn law_members_that_stay_keep_their_order(zone: Seq<Address>, pool: Address)
    requires
        zone.contains(pool),
    ensures
        ({
            let next = spec_without(zone, pool);
            &&& next.len() == zone.len() - 1
            &&& exists|at: int|
                {
                    &&& 0 <= at < zone.len()
                    &&& #[trigger] zone[at] == pool
                    &&& forall|i: int| 0 <= i < at ==> next[i] == #[trigger] zone[i]
                    &&& forall|i: int| at < i < zone.len() ==> next[i - 1] == #[trigger] zone[i]
                }
        }),
{
    let at = lemma_place(zone, pool);
    assert(zone[at] == pool);
}

/// A pool's record is brought up to date with what its tiers weigh, and with nothing else.
pub proof fn law_records_are_brought_up_to_date(
    state: PoolOngoingEmissions,
    blnd_usdc: Option<PoolBalance>,
    blnd_xlm: Option<PoolBalance>,
)
    ensures
        spec_refreshed(state, blnd_usdc, blnd_xlm) is Ok <==> state.valid() && (
        blnd_usdc matches Some(b) ==> b.well_formed()) && (blnd_xlm matches Some(b)
            ==> b.well_formed()),
        spec_refreshed(state, blnd_usdc, blnd_xlm) matches Ok(next) ==> {
            &&& holds_active(blnd_usdc, next.active_blnd_usdc)
            &&& holds_active(blnd_xlm, next.active_blnd_xlm)
            &&& next.accrued_pool == state.accrued_pool
            &&& next.backstop_tier_carry == state.backstop_tier_carry
            &&& next.pending_blnd_usdc == state.pending_blnd_usdc
            &&& next.pending_blnd_xlm == state.pending_blnd_xlm
        },
{
    if let Some(tier) = blnd_usdc {
        law_tiers_weigh_the_tokens_that_are_not_queued(tier);
    }
    if let Some(tier) = blnd_xlm {
        law_tiers_weigh_the_tokens_that_are_not_queued(tier);
    }
}

/// Whether a position weighs this: the part, rounded down, that its tokens that are not
/// queued have of the BLND in the Comet pool that issued them.
pub open spec fn weighs(position: Option<LpPosition>, weight: int) -> bool {
    match position {
        None => weight == 0,
        Some(p) => exists|active: int|
            {
                &&& #[trigger] stands_behind(p.balance, p.balance.shares - p.balance.q4w, active)
                &&& 0 <= active <= p.total_supply
                &&& is_floor_of(weight, active * p.blnt_reserve, p.total_supply as int)
            },
    }
}

proof fn lemma_weighs(position: Option<LpPosition>)
    ensures
        spec_spot_underlying(position) matches Ok(weight) ==> weighs(position, weight as int)
            && weight >= 0,
{
    if let Some(p) = position {
        if spec_spot_underlying(position) is Ok {
            law_tiers_weigh_the_tokens_that_are_not_queued(p.balance);
            let active = spec_active_assets(p.balance)->Ok_0 as int;
            lemma_floor(active * p.blnt_reserve, p.total_supply as int);
            assert(active * p.blnt_reserve == p.blnt_reserve * active) by (nonlinear_arith);
            lemma_part_of_value(p.blnt_reserve as int, active, p.total_supply as int);
            assert(stands_behind(p.balance, p.balance.shares - p.balance.q4w, active));
        }
    }
}

/// A pool weighs what its two LP positions weigh together.
pub proof fn law_pools_weigh_both_positions(
    blnt_usdc: Option<LpPosition>,
    blnt_xlm: Option<LpPosition>,
)
    ensures
        spec_spot_weight(blnt_usdc, blnt_xlm) matches Ok(weight) ==> exists|first: int, second: int|
            {
                &&& #[trigger] weighs(blnt_usdc, first)
                &&& #[trigger] weighs(blnt_xlm, second)
                &&& weight == first + second
            },
{
    lemma_weighs(blnt_usdc);
    lemma_weighs(blnt_xlm);
    if let Ok(weight) = spec_spot_weight(blnt_usdc, blnt_xlm) {
        let first = spec_spot_underlying(blnt_usdc)->Ok_0 as int;
        let second = spec_spot_underlying(blnt_xlm)->Ok_0 as int;
        assert(weighs(blnt_usdc, first) && weighs(blnt_xlm, second) && weight == first + second);
    }
}

} // verus!
