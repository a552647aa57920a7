//! The loss waterfall that a pool factory assigns to a pool.

use vstd::prelude::*;

verus! {

/// One of the four canonical assets accepted by the backstop.
#[derive(Clone, Copy, Debug, PartialEq, Eq, Structural)]
pub enum BackstopAsset {
    BlndXlm,
    BlndUsdc,
    Usdc,
    Xlm,
}

/// One immutable loss-waterfall position that a pool factory provides.
#[derive(Clone, Copy, Debug, PartialEq, Eq, Structural)]
pub struct BackstopTierConfig {
    pub asset: BackstopAsset,
    pub take_rate_weight: u32,
}

} // verus!
