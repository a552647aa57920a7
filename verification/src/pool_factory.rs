//! What a pool factory asks of a pool before it deploys it.

use vstd::prelude::*;

use crate::backstop::pool::MAX_TAKE_RATE_WEIGHT;
use crate::dependencies::pool_factory::BackstopTierConfig;

verus! {

/// Errors of the pool factory.
#[derive(Clone, Copy, Debug, PartialEq, Eq, Structural)]
pub enum PoolFactoryError {
    InvalidPoolInitArgs,
}

impl PoolFactoryError {
    /// The number under which the contract reports the error.
    pub fn code(self) -> (r: u32)
        ensures
            r == 1300,
    {
        match self {
            PoolFactoryError::InvalidPoolInitArgs => 1300,
        }
    }
}

/// The take rate that a pool may not reach, with 7 decimals.
pub const MAX_BACKSTOP_RATE: u32 = 10_000_000;

/// The least number of positions of a pool's user.
pub const MIN_POSITIONS: u32 = 2;

/// The greatest number of positions of a pool's user.
pub const MAX_POSITIONS: u32 = 60;

/// A waterfall of one to three tiers of distinct assets under strictly descending
/// weights from 1 to 10.
pub open spec fn orderly_tiers(config: Seq<BackstopTierConfig>) -> bool {
    &&& 1 <= config.len() <= 3
    &&& forall|i: int|
        0 <= i < config.len() ==> 1 <= (#[trigger] config[i]).take_rate_weight
            <= MAX_TAKE_RATE_WEIGHT
    &&& forall|i: int, j: int|
        0 <= i < j < config.len() ==> (#[trigger] config[i]).take_rate_weight > (
        #[trigger] config[j]).take_rate_weight && config[i].asset != config[j].asset
}

/// Check a pool's waterfall.
pub fn validate_backstop_config(config: &Vec<BackstopTierConfig>) -> (r: Result<
    (),
    PoolFactoryError,
>)
    ensures
        r == if orderly_tiers(config@) {
            Ok(())
        } else {
            Err(PoolFactoryError::InvalidPoolInitArgs)
        },
{
    if config.len() == 0 || config.len() > 3 {
        return Err(PoolFactoryError::InvalidPoolInitArgs);
    }
    let mut index: usize = 0;
    while index < config.len()
        invariant
            index <= config@.len() <= 3,
            config@.len() > 0,
            forall|i: int|
                0 <= i < index ==> 1 <= (#[trigger] config@[i]).take_rate_weight
                    <= MAX_TAKE_RATE_WEIGHT,
            forall|i: int, j: int|
                0 <= i < index && i < j < config@.len() ==> (#[trigger] config@[i]).take_rate_weight
                    > (#[trigger] config@[j]).take_rate_weight && config@[i].asset
                    != config@[j].asset,
        decreases config@.len() - index,
    {
        let tier: BackstopTierConfig = config[index];
        if tier.take_rate_weight == 0 || tier.take_rate_weight > MAX_TAKE_RATE_WEIGHT {
            return Err(PoolFactoryError::InvalidPoolInitArgs);
        }
        let mut later: usize = index + 1;
        while later < config.len()
            invariant
                index < later <= config@.len() <= 3,
                tier == config@[index as int],
                forall|j: int|
                    index < j < later ==> tier.take_rate_weight > (
                    #[trigger] config@[j]).take_rate_weight && tier.asset != config@[j].asset,
            decreases config@.len() - later,
        {
            if config[later].take_rate_weight >= tier.take_rate_weight || config[later].asset
                == tier.asset {
                assert(!orderly_tiers(config@)) by {
                    assert(config@[index as int] == tier);
                    assert(config@[later as int].take_rate_weight >= tier.take_rate_weight
                        || config@[later as int].asset == tier.asset);
                }
                return Err(PoolFactoryError::InvalidPoolInitArgs);
            }
            later = later + 1;
        }
        index = index + 1;
    }
    Ok(())
}

/// Whether a pool's numbers are acceptable: a take rate below all of it, two to
/// sixty positions, and no negative collateral.
pub open spec fn acceptable_args(backstop_rate: u32, max_positions: u32, min_collateral: i128) -> bool {
    &&& backstop_rate < MAX_BACKSTOP_RATE
    &&& MIN_POSITIONS <= max_positions <= MAX_POSITIONS
    &&& min_collateral >= 0
}

/// Check the arguments that a pool is deployed with.
pub fn validate_pool_init_args(
    backstop_rate: u32,
    max_positions: u32,
    min_collateral: i128,
    config: &Vec<BackstopTierConfig>,
) -> (r: Result<(), PoolFactoryError>)
    ensures
        r == if acceptable_args(backstop_rate, max_positions, min_collateral) && orderly_tiers(
            config@,
        ) {
            Ok(())
        } else {
            Err(PoolFactoryError::InvalidPoolInitArgs)
        },
{
    if backstop_rate >= MAX_BACKSTOP_RATE || max_positions < MIN_POSITIONS || max_positions
        > MAX_POSITIONS || min_collateral < 0 {
        return Err(PoolFactoryError::InvalidPoolInitArgs);
    }
    validate_backstop_config(config)
}

} // verus!
