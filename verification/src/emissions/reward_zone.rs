//! The pools that earn emissions.

use soroban_sdk::Env;
use vstd::prelude::*;

use super::tier_accounting::{active_fits, refresh_pool_ongoing_assets, spec_refreshed};
use crate::backstop::pool::{ActivationQuote, PoolBalance};
use crate::collections::{
    first_at, items_of, vec_contains, vec_first_index_of, vec_get, vec_len, vec_new,
    vec_push_back, vec_push_front, vec_remove,
};
use crate::constants::MAX_RZ_SIZE;
use crate::errors::BackstopError;
use crate::storage::{PoolOngoingEmissions, ZoneClock};
use crate::Address;

verus! {

/// The greatest age of a distribution checkpoint that membership can change under.
pub const CHECKPOINT_MAX_AGE_SECONDS: u64 = 3_600;

/// Most recent completed distribution checkpoint used to guard membership edits.
#[derive(Clone, Copy, Debug, PartialEq, Eq, Structural)]
pub struct RewardZoneCheckpoint {
    pub timestamp: u64,
}

/// The last distribution checkpoint.
pub fn get_reward_zone_checkpoint(clock: &ZoneClock) -> (r: Option<RewardZoneCheckpoint>)
    ensures
        r == match clock.checkpoint {
            Some(timestamp) => Some(RewardZoneCheckpoint { timestamp }),
            None => None,
        },
{
    match clock.checkpoint {
        Some(timestamp) => Some(RewardZoneCheckpoint { timestamp }),
        None => None,
    }
}

/// The pools that earn emissions, the newest first. Only its own functions fill it.
pub struct RewardZone {
    pools: soroban_sdk::Vec<Address>,
}

impl View for RewardZone {
    type V = Seq<Address>;

    closed spec fn view(&self) -> Seq<Address> {
        items_of(self.pools)
    }
}

impl RewardZone {
    /// A zone without pools.
    pub fn new(e: &Env) -> (r: RewardZone)
        ensures
            r@ == Seq::<Address>::empty(),
    {
        RewardZone { pools: vec_new(e) }
    }

    /// The number of pools.
    pub fn len(&self) -> (r: u32)
        ensures
            r == self@.len(),
    {
        vec_len(&self.pools)
    }

    /// The pool at a position.
    pub fn get(&self, i: u32) -> (r: Option<Address>)
        ensures
            r == if i < self@.len() {
                Some(self@[i as int])
            } else {
                None
            },
    {
        vec_get(&self.pools, i)
    }

    /// Whether a pool is a member.
    pub fn contains(&self, pool: Address) -> (r: bool)
        ensures
            r == self@.contains(pool),
    {
        vec_contains(&self.pools, pool)
    }

    /// Put a pool behind the others, without a rule: a zone is read back in so.
    pub fn push_back(&mut self, pool: Address)
        requires
            old(self)@.len() < u32::MAX,
        ensures
            final(self)@ == old(self)@.push(pool),
    {
        vec_push_back(&mut self.pools, pool);
    }
}

/// Require a reward zone of at most 30 pools.
pub fn get_reward_zone(zone: &RewardZone) -> (r: Result<(), BackstopError>)
    ensures
        r == if zone@.len() > MAX_RZ_SIZE {
            Err(BackstopError::OverflowError)
        } else {
            Ok(())
        },
{
    if zone.len() > MAX_RZ_SIZE {
        return Err(BackstopError::OverflowError);
    }
    Ok(())
}

/// Whether `checkpoint` lies at most an age in the past of `now`.
pub open spec fn recent(checkpoint: u64, now: u64, max_age: u64) -> bool {
    now - max_age <= checkpoint <= now
}

/// Whether the last distribution is recent enough for an edit; before the first
/// one every edit is in time.
pub open spec fn spec_distributed_recently(clock: ZoneClock, now: u64) -> bool {
    !clock.started || (clock.checkpoint matches Some(checkpoint) && recent(
        checkpoint,
        now,
        CHECKPOINT_MAX_AGE_SECONDS,
    ))
}

/// Require a recent distribution, once distribution has begun.
pub fn require_recent_distribution_checkpoint(clock: &ZoneClock, now: u64) -> (r: Result<
    (),
    BackstopError,
>)
    ensures
        r == if spec_distributed_recently(*clock, now) {
            Ok(())
        } else {
            Err(BackstopError::DistributionCheckpointRequired)
        },
{
    if !clock.started {
        return Ok(());
    }
    let checkpoint: u64 = match get_reward_zone_checkpoint(clock) {
        Some(checkpoint) => checkpoint.timestamp,
        None => return Err(BackstopError::DistributionCheckpointRequired),
    };
    if checkpoint > now || now - checkpoint > CHECKPOINT_MAX_AGE_SECONDS {
        return Err(BackstopError::DistributionCheckpointRequired);
    }
    Ok(())
}

/// The zone without the first occurrence of a pool.
pub open spec fn spec_without(zone: Seq<Address>, pool: Address) -> Seq<Address> {
    zone.remove(choose|i: int| first_at(zone, pool, i))
}

proof fn lemma_without(zone: Seq<Address>, pool: Address, i: int)
    requires
        first_at(zone, pool, i),
    ensures
        spec_without(zone, pool) == zone.remove(i),
{
    let k = choose|k: int| first_at(zone, pool, k);
    assert(first_at(zone, pool, k));
    assert(k == i);
}

/// What the zone's rules need to know of a pool that wants to enter.
#[derive(Clone, Copy, Debug)]
pub struct Entrant {
    pub pool: Address,
    /// The pool's value against the threshold of entry.
    pub activation: Result<ActivationQuote, BackstopError>,
    /// The pool's weight.
    pub weight: Result<i128, BackstopError>,
    /// The balances of the pool's LP tiers, where it has them.
    pub blnd_usdc: Option<PoolBalance>,
    pub blnd_xlm: Option<PoolBalance>,
}

impl Entrant {
    /// Whether the active LP tokens can be counted without an overflow.
    pub open spec fn fits(self) -> bool {
        active_fits(self.blnd_usdc) && active_fits(self.blnd_xlm)
    }
}

/// What the zone's rules need to know of a member that is to leave for an entrant.
#[derive(Clone, Copy, Debug)]
pub struct Leaver {
    pub pool: Address,
    pub weight: Result<i128, BackstopError>,
}

/// The objection to an entrant as such: it is a member already, its value lies
/// below the threshold, or it has no weight.
pub open spec fn spec_entrant_error(zone: Seq<Address>, entrant: Entrant) -> Option<BackstopError> {
    if zone.len() > MAX_RZ_SIZE {
        Some(BackstopError::OverflowError)
    } else if zone.contains(entrant.pool) {
        Some(BackstopError::InvalidRewardZoneEntry)
    } else {
        match (entrant.activation, entrant.weight) {
            (Err(error), _) => Some(error),
            (Ok(quote), _) if !quote.meets_threshold => Some(
                BackstopError::InvalidRewardZoneEntry,
            ),
            (_, Err(error)) => Some(error),
            (_, Ok(weight)) => if weight <= 0 {
                Some(BackstopError::InvalidRewardZoneEntry)
            } else {
                None
            },
        }
    }
}

/// The objection to who is to leave a full zone: nobody is named, no member is
/// named, or the member is not lighter than the entrant.
pub open spec fn spec_leaver_error(
    zone: Seq<Address>,
    weight: i128,
    leaver: Option<Leaver>,
) -> Option<BackstopError> {
    if zone.len() < MAX_RZ_SIZE {
        None
    } else {
        match leaver {
            None => Some(BackstopError::RewardZoneFull),
            Some(leaver) => if !zone.contains(leaver.pool) {
                Some(BackstopError::InvalidRewardZoneEntry)
            } else {
                match leaver.weight {
                    Err(error) => Some(error),
                    Ok(left) => if weight <= left {
                        Some(BackstopError::InvalidRewardZoneEntry)
                    } else {
                        None
                    },
                }
            },
        }
    }
}

/// The first objection to an entry.
pub open spec fn spec_add_error(
    gate: Result<(), BackstopError>,
    zone: Seq<Address>,
    entrant: Entrant,
    leaver: Option<Leaver>,
    needs_checkpoint: bool,
    clock: ZoneClock,
    now: u64,
) -> Option<BackstopError> {
    if gate is Err {
        Some(gate->Err_0)
    } else if spec_entrant_error(zone, entrant) is Some {
        spec_entrant_error(zone, entrant)
    } else if needs_checkpoint && !spec_distributed_recently(clock, now) {
        Some(BackstopError::DistributionCheckpointRequired)
    } else {
        spec_leaver_error(zone, entrant.weight->Ok_0, leaver)
    }
}

/// The zone with a new member in front, in place of the one that leaves where it was full.
pub open spec fn spec_zone_with(
    zone: Seq<Address>,
    pool: Address,
    leaver: Option<Leaver>,
) -> Seq<Address> {
    if zone.len() < MAX_RZ_SIZE {
        zone.insert(0, pool)
    } else {
        spec_without(zone, leaver->Some_0.pool).insert(0, pool)
    }
}

/// Admit a pool under the zone's rules and return the member that left for it. The
/// entrant's record counts its active LP tokens from then on.
pub fn enter_zone(
    gate: Result<(), BackstopError>,
    zone: &mut RewardZone,
    entrant: &Entrant,
    record: &mut PoolOngoingEmissions,
    leaver: &Option<Leaver>,
    needs_checkpoint: bool,
    clock: &ZoneClock,
    now: u64,
) -> (r: Result<Option<Address>, BackstopError>)
    requires
        spec_add_error(gate, old(zone)@, *entrant, *leaver, needs_checkpoint, *clock, now) is None
            ==> entrant.fits(),
    ensures
        r is Err ==> final(zone)@ == old(zone)@ && *final(record) == *old(record),
        match spec_add_error(
            gate,
            old(zone)@,
            *entrant,
            *leaver,
            needs_checkpoint,
            *clock,
            now,
        ) {
            Some(error) => r == Err::<Option<Address>, BackstopError>(error),
            None => match spec_refreshed(*old(record), entrant.blnd_usdc, entrant.blnd_xlm) {
                Err(error) => r == Err::<Option<Address>, BackstopError>(error),
                Ok(refreshed) => {
                    &&& final(zone)@ == spec_zone_with(old(zone)@, entrant.pool, *leaver)
                    &&& *final(record) == refreshed
                    &&& r == Ok::<Option<Address>, BackstopError>(
                        if old(zone)@.len() < MAX_RZ_SIZE {
                            None
                        } else {
                            Some(leaver->Some_0.pool)
                        },
                    )
                },
            },
        },
{
    gate?;
    get_reward_zone(&*zone)?;
    if zone.contains(entrant.pool) {
        return Err(BackstopError::InvalidRewardZoneEntry);
    }
    let quote = entrant.activation?;
    if !quote.meets_threshold {
        return Err(BackstopError::InvalidRewardZoneEntry);
    }
    let entrant_weight: i128 = entrant.weight?;
    if entrant_weight <= 0 {
        return Err(BackstopError::InvalidRewardZoneEntry);
    }
    if needs_checkpoint {
        require_recent_distribution_checkpoint(clock, now)?;
    }
    if zone.len() < MAX_RZ_SIZE {
        refresh_pool_ongoing_assets(record, &entrant.blnd_usdc, &entrant.blnd_xlm)?;
        vec_push_front(&mut zone.pools, entrant.pool);
        return Ok(None);
    }
    let leaver: Leaver = match leaver {
        None => return Err(BackstopError::RewardZoneFull),
        Some(leaver) => *leaver,
    };
    let index: u32 = match vec_first_index_of(&zone.pools, leaver.pool) {
        None => return Err(BackstopError::InvalidRewardZoneEntry),
        Some(index) => index,
    };
    assert(zone@.contains(leaver.pool));
    let removed_weight: i128 = leaver.weight?;
    if entrant_weight <= removed_weight {
        return Err(BackstopError::InvalidRewardZoneEntry);
    }
    refresh_pool_ongoing_assets(record, &entrant.blnd_usdc, &entrant.blnd_xlm)?;
    proof {
        lemma_without(zone@, leaver.pool, index as int);
    }
    let _ = vec_remove(&mut zone.pools, index);
    vec_push_front(&mut zone.pools, entrant.pool);
    Ok(Some(leaver.pool))
}

/// What the zone's rules need to know of a member that no longer qualifies.
#[derive(Clone, Copy, Debug)]
pub struct Departing {
    pub pool: Address,
    /// The member's weight.
    pub weight: Result<i128, BackstopError>,
    /// The member's value against the threshold of staying.
    pub activation: Result<ActivationQuote, BackstopError>,
}

/// The first objection to a removal: no member, or a member with weight whose value
/// still reaches the threshold, or whose removal lacks a recent distribution.
pub open spec fn spec_remove_error(
    gate: Result<(), BackstopError>,
    zone: Seq<Address>,
    departing: Departing,
    clock: ZoneClock,
    now: u64,
) -> Option<BackstopError> {
    if gate is Err {
        Some(gate->Err_0)
    } else if zone.len() > MAX_RZ_SIZE {
        Some(BackstopError::OverflowError)
    } else if !zone.contains(departing.pool) {
        Some(BackstopError::InvalidRewardZoneEntry)
    } else {
        match departing.weight {
            Err(error) => Some(error),
            Ok(weight) => if weight <= 0 {
                None
            } else {
                match departing.activation {
                    Err(error) => Some(error),
                    Ok(quote) => if quote.meets_threshold {
                        Some(BackstopError::InvalidRewardZoneEntry)
                    } else if !spec_distributed_recently(clock, now) {
                        Some(BackstopError::DistributionCheckpointRequired)
                    } else {
                        None
                    },
                }
            },
        }
    }
}

/// Remove a pool that no longer qualifies from the reward zone.
pub fn remove_from_reward_zone(
    gate: Result<(), BackstopError>,
    zone: &mut RewardZone,
    departing: &Departing,
    clock: &ZoneClock,
    now: u64,
) -> (r: Result<(), BackstopError>)
    ensures
        match spec_remove_error(gate, old(zone)@, *departing, *clock, now) {
            Some(error) => {
                &&& r == Err::<(), BackstopError>(error)
                &&& final(zone)@ == old(zone)@
            },
            None => {
                &&& r == Ok::<(), BackstopError>(())
                &&& final(zone)@ == spec_without(old(zone)@, departing.pool)
            },
        },
{
    gate?;
    get_reward_zone(&*zone)?;
    let index: u32 = match vec_first_index_of(&zone.pools, departing.pool) {
        Some(index) => index,
        None => return Err(BackstopError::InvalidRewardZoneEntry),
    };
    assert(zone@.contains(departing.pool));
    let removed_weight: i128 = departing.weight?;
    if removed_weight > 0 {
        let quote = departing.activation?;
        if quote.meets_threshold {
            return Err(BackstopError::InvalidRewardZoneEntry);
        }
        require_recent_distribution_checkpoint(clock, now)?;
    }
    proof {
        lemma_without(zone@, departing.pool, index as int);
    }
    let _ = vec_remove(&mut zone.pools, index);
    Ok(())
}

/// Add a qualifying pool to the reward zone, with its active LP tokens on record. The
/// first member needs no recent distribution.
pub fn add_to_reward_zone(
    gate: Result<(), BackstopError>,
    zone: &mut RewardZone,
    entrant: &Entrant,
    record: &mut PoolOngoingEmissions,
    leaver: &Option<Leaver>,
    clock: &ZoneClock,
    now: u64,
) -> (r: Result<Option<Address>, BackstopError>)
    requires
        spec_add_error(gate, old(zone)@, *entrant, *leaver, old(zone)@.len() > 0, *clock, now) is None
            ==> entrant.fits(),
    ensures
        r is Err ==> final(zone)@ == old(zone)@ && *final(record) == *old(record),
        match spec_add_error(
            gate,
            old(zone)@,
            *entrant,
            *leaver,
            old(zone)@.len() > 0,
            *clock,
            now,
        ) {
            Some(error) => r == Err::<Option<Address>, BackstopError>(error),
            None => match spec_refreshed(*old(record), entrant.blnd_usdc, entrant.blnd_xlm) {
                Err(error) => r == Err::<Option<Address>, BackstopError>(error),
                Ok(refreshed) => {
                    &&& final(zone)@ == spec_zone_with(old(zone)@, entrant.pool, *leaver)
                    &&& *final(record) == refreshed
                    &&& r == Ok::<Option<Address>, BackstopError>(
                        if old(zone)@.len() < MAX_RZ_SIZE {
                            None
                        } else {
                            Some(leaver->Some_0.pool)
                        },
                    )
                },
            },
        },
{
    let needs_checkpoint: bool = zone.len() > 0;
    enter_zone(gate, zone, entrant, record, leaver, needs_checkpoint, clock, now)
}

/// An entry keeps the zone within 30 pools and free of duplicates, adds the entrant
/// and drops nobody but the member that leaves.
pub proof fn law_entries_keep_the_zone_bounded_and_distinct(
    gate: Result<(), BackstopError>,
    zone: Seq<Address>,
    entrant: Entrant,
    leaver: Option<Leaver>,
    needs_checkpoint: bool,
    clock: ZoneClock,
    now: u64,
    other: Address,
)
    requires
        spec_add_error(gate, zone, entrant, leaver, needs_checkpoint, clock, now) is None,
        zone.no_duplicates(),
    ensures
        ({
            let next = spec_zone_with(zone, entrant.pool, leaver);
            &&& next.len() <= MAX_RZ_SIZE
            &&& next.no_duplicates()
            &&& next.contains(entrant.pool)
            &&& (next.contains(other) ==> other == entrant.pool || zone.contains(other))
            &&& (zone.contains(other) && !(zone.len() == MAX_RZ_SIZE && other
                == leaver->Some_0.pool) ==> next.contains(other))
        }),
{
    let next = spec_zone_with(zone, entrant.pool, leaver);
    let kept = if zone.len() < MAX_RZ_SIZE {
        zone
    } else {
        let pool = leaver->Some_0.pool;
        let i = zone.index_of(pool);
        assert(first_at(zone, pool, i));
        lemma_without(zone, pool, i);
        lemma_removal(zone, i, other);
        lemma_removal(zone, i, entrant.pool);
        spec_without(zone, pool)
    };
    assert(next == kept.insert(0, entrant.pool));
    assert(next[0] == entrant.pool);
    assert forall|i: int, j: int| 0 <= i < next.len() && 0 <= j < next.len() && i != j implies next[i]
        != next[j] by {
        if i > 0 {
            assert(next[i] == kept[i - 1]);
            assert(kept.contains(kept[i - 1]));
        }
        if j > 0 {
            assert(next[j] == kept[j - 1]);
            assert(kept.contains(kept[j - 1]));
        }
    }
    if kept.contains(other) {
        let k = kept.index_of(other);
        assert(next[k + 1] == other);
    }
    if next.contains(other) && other != entrant.pool {
        let k = next.index_of(other);
        assert(kept[k - 1] == other);
    }
}

proof fn lemma_removal(zone: Seq<Address>, i: int, other: Address)
    requires
        0 <= i < zone.len(),
        zone.no_duplicates(),
    ensures
        zone.remove(i).no_duplicates(),
        zone.remove(i).contains(other) <==> zone.contains(other) && other != zone[i],
{
    let next = zone.remove(i);
    if next.contains(other) {
        let k = next.index_of(other);
        assert(zone[if k < i {
            k
        } else {
            k + 1
        }] == other);
    }
    if zone.contains(other) && other != zone[i] {
        let k = zone.index_of(other);
        assert(next[if k < i {
            k
        } else {
            k - 1
        }] == other);
    }
}

/// A removal takes exactly the named member out of the zone.
pub proof fn law_removals_take_only_the_member(zone: Seq<Address>, pool: Address, other: Address)
    requires
        zone.no_duplicates(),
        zone.contains(pool),
    ensures
        spec_without(zone, pool).no_duplicates(),
        spec_without(zone, pool).len() == zone.len() - 1,
        spec_without(zone, pool).contains(other) <==> zone.contains(other) && other != pool,
{
    let i = zone.index_of(pool);
    assert(first_at(zone, pool, i));
    lemma_without(zone, pool, i);
    lemma_removal(zone, i, other);
}

} // verus!
