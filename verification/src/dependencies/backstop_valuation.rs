//! What a valuation contract reports.

use vstd::prelude::*;

use crate::Address;

verus! {

/// One immutable valuation for a backstop LP-token amount.
#[derive(Clone, Copy, Debug, PartialEq, Eq, Structural)]
pub struct AssetValuation {
    pub underlying_blnd: i128,
    pub usdc_value: i128,
    pub valid_until: u64,
}

/// Assets an immutable backstop valuation contract is authorized to price.
#[derive(Clone, Copy, Debug, PartialEq, Eq, Structural)]
pub struct BackstopValuationBinding {
    pub blnd: Address,
    pub blnd_usdc: Address,
    pub blnd_xlm: Address,
    pub usdc: Address,
}

} // verus!
