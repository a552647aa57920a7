//! The fixed three-tier layout of the backstop.

use vstd::prelude::*;

use super::pool::BackstopAssets;
use crate::Address;

verus! {

/// The fixed backstop asset identifiers.
#[derive(Clone, Copy, Debug, PartialEq, Eq, Structural)]
pub enum BackstopTier {
    BlndUsdc,
    BlndXlm,
    Usdc,
}

/// The token contract of a tier.
pub open spec fn spec_token(assets: BackstopAssets, tier: BackstopTier) -> Address {
    match tier {
        BackstopTier::BlndUsdc => assets.blnd_usdc,
        BackstopTier::BlndXlm => assets.blnd_xlm,
        BackstopTier::Usdc => assets.usdc,
    }
}

/// The token contract of a tier.
pub fn token(assets: &BackstopAssets, tier: BackstopTier) -> (r: Address)
    ensures
        r == spec_token(*assets, tier),
{
    match tier {
        BackstopTier::BlndUsdc => assets.blnd_usdc,
        BackstopTier::BlndXlm => assets.blnd_xlm,
        BackstopTier::Usdc => assets.usdc,
    }
}

} // verus!
