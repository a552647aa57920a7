//! The records that the contract keeps between calls.

use vstd::prelude::*;

verus! {

/// The emission stream of one tier of one pool.
#[derive(Clone, Copy, Debug, PartialEq, Eq, Structural)]
pub struct BackstopEmissionData {
    /// The token units per second that the stream emits, with 7 decimals.
    pub eps: u64,
    /// The end of the stream.
    pub expiration: u64,
    /// The tokens that one share has earned so far, with 14 decimals.
    pub index: i128,
    /// What the index has left over of the tokens emitted so far.
    pub index_carry: i128,
    /// The time up to which the index counts.
    pub last_time: u64,
    /// What the rate has left over of the tokens scheduled, paid at the end of the stream.
    pub schedule_carry: i128,
}

/// What one user has earned from one stream.
#[derive(Clone, Copy, Debug, PartialEq, Eq, Structural)]
pub struct UserEmissionData {
    /// The tokens earned and not claimed.
    pub accrued: i128,
    /// The fraction of a token that the earnings have left over, with 14 decimals.
    pub carry: i128,
    /// The index of the stream up to which the earnings count.
    pub index: i128,
}

/// What has become of all ongoing emissions so far.
#[derive(Clone, Copy, Debug, PartialEq, Eq, Structural)]
pub struct OngoingEmissionState {
    /// What the backstop tiers of all pools were allocated.
    pub backstop_allocated: i128,
    /// What the backstop's part has left over.
    pub backstop_carry: i128,
    /// What users have claimed of the backstop's part.
    pub backstop_claimed: i128,
    /// The time up to which emissions are distributed.
    pub last_distribution: Option<u64>,
    /// What all pools were allocated.
    pub pool_allocated: i128,
    /// What the pools' part has left over.
    pub pool_carry: i128,
    /// What the split into the two parts has left over.
    pub split_carry: i128,
    /// All emissions.
    pub total_distributed: i128,
}

/// The ongoing emissions of one pool.
#[derive(Clone, Copy, Debug, PartialEq, Eq, Structural)]
pub struct PoolOngoingEmissions {
    /// What the pool itself has been allocated and has not taken.
    pub accrued_pool: i128,
    /// The active BLND:USDC LP tokens of the pool.
    pub active_blnd_usdc: i128,
    /// The active BLND:XLM LP tokens of the pool.
    pub active_blnd_xlm: i128,
    /// What the tiers' part has left over.
    pub backstop_tier_carry: i128,
    /// What the BLND:USDC tier has been allocated and does not stream yet.
    pub pending_blnd_usdc: i128,
    /// What the BLND:XLM tier has been allocated and does not stream yet.
    pub pending_blnd_xlm: i128,
}

/// When emissions were last distributed to the reward zone.
#[derive(Clone, Copy, Debug, PartialEq, Eq, Structural)]
pub struct ZoneClock {
    /// The last distribution checkpoint.
    pub checkpoint: Option<u64>,
    /// Whether distribution has begun.
    pub started: bool,
}

impl ZoneClock {
    /// The clock after a distribution up to `checkpoint`.
    pub open spec fn spec_at(checkpoint: u64) -> ZoneClock {
        ZoneClock { checkpoint: Some(checkpoint), started: true }
    }

    /// The clock after a distribution up to `checkpoint`.
    pub fn at(checkpoint: u64) -> (r: ZoneClock)
        ensures
            r == ZoneClock::spec_at(checkpoint),
    {
        ZoneClock { checkpoint: Some(checkpoint), started: true }
    }
}

impl OngoingEmissionState {
    /// Nothing distributed up to `checkpoint`.
    pub open spec fn spec_empty_at(checkpoint: u64) -> OngoingEmissionState {
        OngoingEmissionState {
            backstop_allocated: 0,
            backstop_carry: 0,
            backstop_claimed: 0,
            last_distribution: Some(checkpoint),
            pool_allocated: 0,
            pool_carry: 0,
            split_carry: 0,
            total_distributed: 0,
        }
    }

    /// Nothing distributed up to `checkpoint`.
    pub fn empty_at(checkpoint: u64) -> (r: OngoingEmissionState)
        ensures
            r == OngoingEmissionState::spec_empty_at(checkpoint),
            r.valid(),
            r.conserves(),
    {
        OngoingEmissionState {
            backstop_allocated: 0,
            backstop_carry: 0,
            backstop_claimed: 0,
            last_distribution: Some(checkpoint),
            pool_allocated: 0,
            pool_carry: 0,
            split_carry: 0,
            total_distributed: 0,
        }
    }

    /// No amount is negative and no more is claimed than allocated.
    pub open spec fn valid(self) -> bool {
        &&& 0 <= self.backstop_allocated
        &&& 0 <= self.backstop_carry
        &&& 0 <= self.backstop_claimed <= self.backstop_allocated
        &&& 0 <= self.pool_allocated
        &&& 0 <= self.pool_carry
        &&& 0 <= self.split_carry
        &&& 0 <= self.total_distributed
    }

    /// The emissions that are allocated or carried on.
    pub open spec fn accounted(self) -> int {
        self.backstop_allocated + self.pool_allocated + self.split_carry + self.backstop_carry
            + self.pool_carry
    }

    /// Every emission is accounted for.
    pub open spec fn conserves(self) -> bool {
        self.accounted() == self.total_distributed
    }
}

impl PoolOngoingEmissions {
    /// No amount is negative.
    pub open spec fn valid(self) -> bool {
        &&& 0 <= self.accrued_pool
        &&& 0 <= self.active_blnd_usdc
        &&& 0 <= self.active_blnd_xlm
        &&& 0 <= self.backstop_tier_carry
        &&& 0 <= self.pending_blnd_usdc
        &&& 0 <= self.pending_blnd_xlm
    }
}

} // verus!
