//! Fixed-point scales and protocol limits.

use vstd::prelude::*;

verus! {

/// Fixed-point scalar for 7 decimal numbers.
pub const SCALAR_7: i128 = 10_000_000;

/// Fixed-point scalar for 14 decimal numbers.
pub const SCALAR_14: i128 = 100_000_000_000_000;

/// The maximum reward zone size.
pub const MAX_RZ_SIZE: u32 = 30;

/// The maximum amount of active Q4W entries that a user can have against a single backstop.
pub const MAX_Q4W_SIZE: u32 = 20;

/// The time in seconds that a Q4W entry is locked for (17 days).
pub const Q4W_LOCK_TIME: u64 = 1_468_800;

/// The maximum amount of backfilled emissions that can be emitted.
/// Represents between 3-4 months worth of token emissions.
pub const MAX_BACKFILLED_EMISSIONS: i128 = 100_000_000_000_000;

/// The most that the emitter's initial recipient may allocate in its drop list.
pub const MAX_INITIAL_DROP: i128 = 1_500_000_000_000_000;

/// The most that a migration candidate may allocate in its drop list, so that the emitter's
/// remaining allowance can fund migration backfill.
pub const MAX_MIGRATION_DROP_LIST: i128 = 400_000_000_000_000;

/// The verified USDC value required for pool activation.
pub const ACTIVATION_THRESHOLD_USDC: i128 = 125_000_000_000;

/// Numerator of the one-percent haircut on plain-asset interest proceeds.
pub const USDC_BUYBACK_HAIRCUT_NUMERATOR: i128 = 1;

/// Denominator of the one-percent haircut on plain-asset interest proceeds.
pub const USDC_BUYBACK_HAIRCUT_DENOMINATOR: i128 = 100;

/// Process at most 0.5% of the canonical Comet's current pair reserve per buyback.
pub const BUYBACK_MAX_RESERVE_NUMERATOR: i128 = 1;

/// Denominator of the share of the pair reserve that one buyback may process.
pub const BUYBACK_MAX_RESERVE_DENOMINATOR: i128 = 200;

/// Permit at most a one-percent increase over the Comet's current fee-inclusive spot price.
pub const BUYBACK_MAX_PRICE_NUMERATOR: i128 = 101;

/// Denominator of the permitted increase over the spot price.
pub const BUYBACK_MAX_PRICE_DENOMINATOR: i128 = 100;

} // verus!
