//! Valuation of the fixed three-tier layout.

use soroban_sdk::Env;
use vstd::prelude::*;

use super::pool::{
    law_q4w_fraction_is_a_fraction, mul_div_floor, partition_fits, pool_tier_asset_partition,
    read_comet, spec_mul_div_floor, spec_partition, spec_q4w_fraction, spec_read_comet,
    ActivationQuote, CometComposition, CometReading, PoolBalance, TierAmounts,
    PAIR_VALUE_MULTIPLIER,
};
use crate::constants::SCALAR_7;
use crate::errors::BackstopError;
use crate::math::{fits_i128, mul_div_ceil};

verus! {

/// The BLND that an amount stands for and its value in USDC.
#[derive(Clone, Copy, Debug, PartialEq, Eq, Structural)]
pub struct AssetValuation {
    pub underlying_blnd: i128,
    pub usdc_value: i128,
}

/// One USDC value for each tier.
#[derive(Clone, Copy, Debug, PartialEq, Eq, Structural)]
pub struct ActivationValues {
    pub blnd_usdc: i128,
    pub blnd_xlm: i128,
    pub usdc: i128,
}

/// The BLND behind the active shares of the two LP tiers.
#[derive(Clone, Copy, Debug, PartialEq, Eq, Structural)]
pub struct BlndEmissionValues {
    pub blnd_usdc: i128,
    pub blnd_xlm: i128,
}

/// The values of all tiers by the state of the shares.
#[derive(Clone, Copy, Debug, PartialEq, Eq, Structural)]
pub struct PoolValuation {
    pub active_blnd: BlndEmissionValues,
    pub active_values: ActivationValues,
    pub queued_values: ActivationValues,
    pub total_values: ActivationValues,
}

/// The values of one tier's active, queued and total tokens.
#[derive(Clone, Copy, Debug, PartialEq, Eq, Structural)]
pub struct PoolTierValuation {
    pub active: AssetValuation,
    pub queued: AssetValuation,
    pub total: AssetValuation,
}

/// One pool's compact accounting and canonical valuation for a fixed backstop tier.
#[derive(Clone, Copy, Debug, PartialEq, Eq, Structural)]
pub struct PoolTierData {
    /// Total tier-token assets.
    pub tokens: i128,
    /// Total issued shares, including queued shares.
    pub shares: i128,
    /// USDC value of all tier tokens.
    pub value: i128,
}

/// One pool's complete three-tier backstop accounting and valuation.
#[derive(Clone, Copy, Debug, PartialEq, Eq, Structural)]
pub struct PoolBackstopData {
    /// Aggregate USDC value excluding queued withdrawals.
    pub active_value: i128,
    pub blnd_usdc: PoolTierData,
    pub blnd_xlm: PoolTierData,
    /// Queued value divided by total active-plus-queued value, rounded up.
    pub q4w_pct: i128,
    pub usdc: PoolTierData,
}

/// One pool's balances in the three tiers.
#[derive(Clone, Copy, Debug, PartialEq, Eq, Structural)]
pub struct TierBalances {
    pub blnd_usdc: PoolBalance,
    pub blnd_xlm: PoolBalance,
    pub usdc: PoolBalance,
}

impl TierBalances {
    /// Every balance can be split by shares without an overflow.
    pub open spec fn partition_fits(self) -> bool {
        partition_fits(self.blnd_usdc) && partition_fits(self.blnd_xlm) && partition_fits(self.usdc)
    }
}

/// Every amount stands for as much BLND and as much USDC.
pub open spec fn spec_unit_pool_tier_valuation(amounts: TierAmounts) -> PoolTierValuation {
    PoolTierValuation {
        active: AssetValuation { underlying_blnd: amounts.0, usdc_value: amounts.0 },
        queued: AssetValuation { underlying_blnd: amounts.1, usdc_value: amounts.1 },
        total: AssetValuation { underlying_blnd: amounts.2, usdc_value: amounts.2 },
    }
}

/// Value one amount one to one.
pub fn unit_asset_valuation(amount: i128) -> (r: AssetValuation)
    ensures
        r.underlying_blnd == amount,
        r.usdc_value == amount,
{
    AssetValuation { underlying_blnd: amount, usdc_value: amount }
}

/// Value a tier one to one.
pub fn unit_pool_tier_valuation(amounts: TierAmounts) -> (r: PoolTierValuation)
    ensures
        r == spec_unit_pool_tier_valuation(amounts),
{
    PoolTierValuation {
        active: unit_asset_valuation(amounts.0),
        queued: unit_asset_valuation(amounts.1),
        total: unit_asset_valuation(amounts.2),
    }
}

/// The parts of the BLND reserve and of `total_value` that `amount` of the pool's
/// supply stands for, or the first error.
pub open spec fn spec_quote_from_composition(
    amount: int,
    total_value: int,
    composition: CometComposition,
) -> Result<AssetValuation, BackstopError> {
    let supply = composition.total_supply as int;
    match (
        spec_mul_div_floor(amount, composition.blnd_reserve as int, supply),
        spec_mul_div_floor(amount, total_value, supply),
    ) {
        (Ok(underlying_blnd), Ok(usdc_value)) => Ok(AssetValuation { underlying_blnd, usdc_value }),
        (Err(error), _) => Err(error),
        (_, Err(error)) => Err(error),
    }
}

/// Value an amount of LP tokens.
pub fn quote_from_composition(
    e: &Env,
    amount: i128,
    total_value: i128,
    composition: &CometComposition,
) -> (r: Result<AssetValuation, BackstopError>)
    ensures
        r == spec_quote_from_composition(amount as int, total_value as int, *composition),
{
    let underlying_blnd: i128 = mul_div_floor(
        e,
        amount,
        composition.blnd_reserve,
        composition.total_supply,
    )?;
    let usdc_value: i128 = mul_div_floor(e, amount, total_value, composition.total_supply)?;
    Ok(AssetValuation { underlying_blnd, usdc_value })
}

/// The values of a tier that is held in LP tokens of a Comet pool worth
/// `total_value`, or the first error.
pub open spec fn spec_pool_tier_valuation(
    amounts: TierAmounts,
    total_value: int,
    composition: CometComposition,
) -> Result<PoolTierValuation, BackstopError> {
    if total_value <= 0 || amounts.2 > composition.total_supply {
        Err(BackstopError::InvalidValuation)
    } else {
        match (
            spec_quote_from_composition(amounts.0 as int, total_value, composition),
            spec_quote_from_composition(amounts.1 as int, total_value, composition),
            spec_quote_from_composition(amounts.2 as int, total_value, composition),
        ) {
            (Ok(active), Ok(queued), Ok(total)) => Ok(
                PoolTierValuation { active, queued, total },
            ),
            (Err(error), _, _) => Err(error),
            (_, Err(error), _) => Err(error),
            (_, _, Err(error)) => Err(error),
        }
    }
}

/// Value a tier that is held in LP tokens of a Comet pool worth `total_value`.
pub fn pool_tier_valuation(
    e: &Env,
    amounts: TierAmounts,
    total_value: i128,
    composition: &CometComposition,
) -> (r: Result<PoolTierValuation, BackstopError>)
    ensures
        r == spec_pool_tier_valuation(amounts, total_value as int, *composition),
{
    if total_value <= 0 || amounts.2 > composition.total_supply {
        return Err(BackstopError::InvalidValuation);
    }
    let active = quote_from_composition(e, amounts.0, total_value, composition)?;
    let queued = quote_from_composition(e, amounts.1, total_value, composition)?;
    let total = quote_from_composition(e, amounts.2, total_value, composition)?;
    Ok(PoolTierValuation { active, queued, total })
}

/// A reading that is missing where it is needed cannot be used.
pub open spec fn spec_required_comet(reading: Option<CometReading>) -> Result<
    CometComposition,
    BackstopError,
> {
    match reading {
        Some(reading) => spec_read_comet(reading),
        None => Err(BackstopError::InvalidValuation),
    }
}

/// Check a reading that is needed.
fn required_comet(reading: Option<CometReading>) -> (r: Result<CometComposition, BackstopError>)
    ensures
        r == spec_required_comet(reading),
{
    match reading {
        Some(reading) => read_comet(&reading),
        None => Err(BackstopError::InvalidValuation),
    }
}

/// Whether some of the three amounts is negative.
pub open spec fn some_negative(amounts: TierAmounts) -> bool {
    amounts.0 < 0 || amounts.1 < 0 || amounts.2 < 0
}

/// The values of the BLND:XLM tier; a tier without tokens needs no price.
pub open spec fn spec_target_quotes(
    amounts: TierAmounts,
    anchor: CometComposition,
    target: Option<CometReading>,
) -> Result<PoolTierValuation, BackstopError> {
    if amounts.2 == 0 {
        Ok(spec_unit_pool_tier_valuation(amounts))
    } else {
        match spec_required_comet(target) {
            Err(error) => Err(error),
            Ok(t) => match spec_mul_div_floor(
                t.blnd_reserve as int,
                anchor.pair_reserve * PAIR_VALUE_MULTIPLIER,
                anchor.blnd_reserve as int,
            ) {
                Err(error) => Err(error),
                Ok(value) => spec_pool_tier_valuation(amounts, value as int, t),
            },
        }
    }
}

/// The values of both LP tiers, or the first error.
pub open spec fn spec_quote_pool_lp_amounts(
    blnd_usdc: TierAmounts,
    blnd_xlm: TierAmounts,
    anchor: Option<CometReading>,
    target: Option<CometReading>,
) -> Result<(PoolTierValuation, PoolTierValuation), BackstopError> {
    if some_negative(blnd_usdc) || some_negative(blnd_xlm) {
        Err(BackstopError::InvalidValuation)
    } else if blnd_usdc.2 == 0 && blnd_xlm.2 == 0 {
        Ok((spec_unit_pool_tier_valuation(blnd_usdc), spec_unit_pool_tier_valuation(blnd_xlm)))
    } else {
        match spec_required_comet(anchor) {
            Err(error) => Err(error),
            Ok(a) => if !fits_i128(a.pair_reserve * PAIR_VALUE_MULTIPLIER) {
                Err(BackstopError::OverflowError)
            } else {
                match spec_pool_tier_valuation(
                    blnd_usdc,
                    a.pair_reserve * PAIR_VALUE_MULTIPLIER,
                    a,
                ) {
                    Err(error) => Err(error),
                    Ok(first) => match spec_target_quotes(blnd_xlm, a, target) {
                        Err(error) => Err(error),
                        Ok(second) => Ok((first, second)),
                    },
                }
            },
        }
    }
}

/// Value the LP tokens of both BLND tiers. A pool without such tokens needs no
/// reading, one without BLND:XLM tokens no reading of the target.
pub fn quote_pool_lp_amounts(
    e: &Env,
    blnd_usdc: TierAmounts,
    blnd_xlm: TierAmounts,
    anchor: Option<CometReading>,
    target: Option<CometReading>,
) -> (r: Result<(PoolTierValuation, PoolTierValuation), BackstopError>)
    ensures
        r == spec_quote_pool_lp_amounts(blnd_usdc, blnd_xlm, anchor, target),
{
    if blnd_usdc.0 < 0 || blnd_usdc.1 < 0 || blnd_usdc.2 < 0 || blnd_xlm.0 < 0 || blnd_xlm.1 < 0
        || blnd_xlm.2 < 0 {
        return Err(BackstopError::InvalidValuation);
    }
    if blnd_usdc.2 == 0 && blnd_xlm.2 == 0 {
        return Ok((unit_pool_tier_valuation(blnd_usdc), unit_pool_tier_valuation(blnd_xlm)));
    }
    let anchor = required_comet(anchor)?;
    let anchor_value: i128 = match anchor.pair_reserve.checked_mul(PAIR_VALUE_MULTIPLIER) {
        Some(value) => value,
        None => return Err(BackstopError::OverflowError),
    };
    let blnd_usdc_quotes = pool_tier_valuation(e, blnd_usdc, anchor_value, &anchor)?;
    let blnd_xlm_quotes = if blnd_xlm.2 == 0 {
        unit_pool_tier_valuation(blnd_xlm)
    } else {
        let target = required_comet(target)?;
        let target_value: i128 = mul_div_floor(
            e,
            target.blnd_reserve,
            anchor_value,
            anchor.blnd_reserve,
        )?;
        pool_tier_valuation(e, blnd_xlm, target_value, &target)?
    };
    Ok((blnd_usdc_quotes, blnd_xlm_quotes))
}

/// The three tiers' values in one record.
pub open spec fn spec_assemble(
    first: PoolTierValuation,
    second: PoolTierValuation,
    usdc: TierAmounts,
) -> PoolValuation {
    PoolValuation {
        active_blnd: BlndEmissionValues {
            blnd_usdc: first.active.underlying_blnd,
            blnd_xlm: second.active.underlying_blnd,
        },
        active_values: ActivationValues {
            blnd_usdc: first.active.usdc_value,
            blnd_xlm: second.active.usdc_value,
            usdc: usdc.0,
        },
        queued_values: ActivationValues {
            blnd_usdc: first.queued.usdc_value,
            blnd_xlm: second.queued.usdc_value,
            usdc: usdc.1,
        },
        total_values: ActivationValues {
            blnd_usdc: first.total.usdc_value,
            blnd_xlm: second.total.usdc_value,
            usdc: usdc.2,
        },
    }
}

/// The valuation of a registered pool, or the first error.
pub open spec fn spec_pool_valuation(
    is_pool: bool,
    balances: TierBalances,
    anchor: Option<CometReading>,
    target: Option<CometReading>,
) -> Result<PoolValuation, BackstopError> {
    if !is_pool {
        Err(BackstopError::NotPool)
    } else {
        match (
            spec_partition(balances.blnd_usdc),
            spec_partition(balances.blnd_xlm),
            spec_partition(balances.usdc),
        ) {
            (Ok(first), Ok(second), Ok(third)) => match spec_quote_pool_lp_amounts(
                first,
                second,
                anchor,
                target,
            ) {
                Ok(quotes) => Ok(spec_assemble(quotes.0, quotes.1, third)),
                Err(error) => Err(error),
            },
            _ => Err(BackstopError::InvalidValuation),
        }
    }
}

/// Value the three tiers of a pool.
pub fn build_pool_valuation(
    e: &Env,
    is_pool: bool,
    balances: &TierBalances,
    anchor: Option<CometReading>,
    target: Option<CometReading>,
) -> (r: Result<PoolValuation, BackstopError>)
    requires
        balances.partition_fits(),
    ensures
        r == spec_pool_valuation(is_pool, *balances, anchor, target),
{
    if !is_pool {
        return Err(BackstopError::NotPool);
    }
    let blnd_usdc: TierAmounts = pool_tier_asset_partition(&balances.blnd_usdc)?;
    let blnd_xlm: TierAmounts = pool_tier_asset_partition(&balances.blnd_xlm)?;
    let usdc: TierAmounts = pool_tier_asset_partition(&balances.usdc)?;
    let quotes = quote_pool_lp_amounts(e, blnd_usdc, blnd_xlm, anchor, target)?;
    let blnd_usdc_quotes = quotes.0;
    let blnd_xlm_quotes = quotes.1;
    Ok(
        PoolValuation {
            active_blnd: BlndEmissionValues {
                blnd_usdc: blnd_usdc_quotes.active.underlying_blnd,
                blnd_xlm: blnd_xlm_quotes.active.underlying_blnd,
            },
            active_values: ActivationValues {
                blnd_usdc: blnd_usdc_quotes.active.usdc_value,
                blnd_xlm: blnd_xlm_quotes.active.usdc_value,
                usdc: usdc.0,
            },
            queued_values: ActivationValues {
                blnd_usdc: blnd_usdc_quotes.queued.usdc_value,
                blnd_xlm: blnd_xlm_quotes.queued.usdc_value,
                usdc: usdc.1,
            },
            total_values: ActivationValues {
                blnd_usdc: blnd_usdc_quotes.total.usdc_value,
                blnd_xlm: blnd_xlm_quotes.total.usdc_value,
                usdc: usdc.2,
            },
        },
    )
}

impl ActivationValues {
    /// The plain sum of the three values.
    pub open spec fn sum(self) -> int {
        self.blnd_usdc + self.blnd_xlm + self.usdc
    }
}

/// The sum of the three values: invalid where one of them is negative, an
/// overflow where an `i128` cannot hold it.
pub open spec fn spec_activation_total(values: ActivationValues) -> Result<i128, BackstopError> {
    if values.blnd_usdc < 0 || values.blnd_xlm < 0 || values.usdc < 0 {
        Err(BackstopError::InvalidActivationValue)
    } else if values.sum() > i128::MAX {
        Err(BackstopError::OverflowError)
    } else {
        Ok(values.sum() as i128)
    }
}

/// Add up the values of the three tiers.
pub fn sum_activation_values(values: &ActivationValues) -> (r: Result<i128, BackstopError>)
    ensures
        r == spec_activation_total(*values),
        r matches Ok(total) ==> total >= 0,
{
    if values.blnd_usdc < 0 || values.blnd_xlm < 0 || values.usdc < 0 {
        return Err(BackstopError::InvalidActivationValue);
    }
    match values.blnd_usdc.checked_add(values.blnd_xlm) {
        None => Err(BackstopError::OverflowError),
        Some(value) => match value.checked_add(values.usdc) {
            None => Err(BackstopError::OverflowError),
            Some(total) => Ok(total),
        },
    }
}

/// The values that a pool needs to become active and to stay active.
#[derive(Clone, Copy, Debug, PartialEq, Eq, Structural)]
pub struct ActivationThresholds {
    pub entry: i128,
    pub maintenance: i128,
}

/// Hold the value of the three tiers against the threshold: that of entry, or
/// that of maintenance for a pool that is active already.
pub fn quote_activation(
    values: &ActivationValues,
    currently_active: bool,
    thresholds: &ActivationThresholds,
) -> (r: Result<ActivationQuote, BackstopError>)
    ensures
        r matches Ok(quote) ==> {
            &&& quote.eligible_value == values.blnd_usdc + values.blnd_xlm + values.usdc
            &&& quote.required_value == if currently_active {
                thresholds.maintenance
            } else {
                thresholds.entry
            }
            &&& quote.meets_threshold <==> quote.eligible_value >= quote.required_value
        },
        r == match spec_activation_total(*values) {
            Err(error) => Err(error),
            Ok(total) => {
                let required = if currently_active {
                    thresholds.maintenance
                } else {
                    thresholds.entry
                };
                Ok(
                    ActivationQuote {
                        eligible_value: total,
                        meets_threshold: total >= required,
                        required_value: required,
                    },
                )
            },
        },
{
    let eligible_value: i128 = sum_activation_values(values)?;
    let required_value: i128 = if currently_active {
        thresholds.maintenance
    } else {
        thresholds.entry
    };
    Ok(
        ActivationQuote {
            eligible_value,
            meets_threshold: eligible_value >= required_value,
            required_value,
        },
    )
}

/// The queued fraction of active and queued values, or the first error.
pub open spec fn spec_q4w_percentage(active: ActivationValues, queued: ActivationValues) -> Result<
    i128,
    BackstopError,
> {
    match (spec_activation_total(active), spec_activation_total(queued)) {
        (Err(error), _) => Err(error),
        (_, Err(error)) => Err(error),
        (Ok(a), Ok(q)) => if a + q > i128::MAX {
            Err(BackstopError::OverflowError)
        } else {
            Ok(spec_q4w_fraction(a as int, q as int) as i128)
        },
    }
}

/// The queued part of a pool's value, rounded up.
pub fn calculate_q4w_percentage(
    e: &Env,
    active_values: &ActivationValues,
    queued_values: &ActivationValues,
) -> (r: Result<i128, BackstopError>)
    ensures
        r == spec_q4w_percentage(*active_values, *queued_values),
        r matches Ok(fraction) ==> 0 <= fraction <= SCALAR_7,
{
    let active_value: i128 = sum_activation_values(active_values)?;
    let queued_value: i128 = sum_activation_values(queued_values)?;
    let total_value: i128 = match active_value.checked_add(queued_value) {
        Some(total_value) => total_value,
        None => return Err(BackstopError::OverflowError),
    };
    if total_value == 0 {
        return Ok(0);
    }
    proof {
        law_q4w_fraction_is_a_fraction(active_value as int, queued_value as int);
    }
    match mul_div_ceil(e, queued_value, SCALAR_7, total_value) {
        Some(fraction) => Ok(fraction),
        None => Err(BackstopError::OverflowError),
    }
}

/// The accounting and valuation of one tier.
pub fn tier_data(balance: &PoolBalance, value: i128) -> (r: PoolTierData)
    ensures
        r == (PoolTierData { tokens: balance.tokens, shares: balance.shares, value }),
{
    PoolTierData { tokens: balance.tokens, shares: balance.shares, value }
}

/// The accounting and valuation of a pool, or the first error.
pub open spec fn spec_pool_data(
    is_pool: bool,
    balances: TierBalances,
    anchor: Option<CometReading>,
    target: Option<CometReading>,
) -> Result<PoolBackstopData, BackstopError> {
    match spec_pool_valuation(is_pool, balances, anchor, target) {
        Err(error) => Err(error),
        Ok(v) => match (
            spec_activation_total(v.active_values),
            spec_q4w_percentage(v.active_values, v.queued_values),
        ) {
            (Err(error), _) => Err(error),
            (_, Err(error)) => Err(error),
            (Ok(active_value), Ok(q4w_pct)) => Ok(
                PoolBackstopData {
                    active_value,
                    blnd_usdc: PoolTierData {
                        tokens: balances.blnd_usdc.tokens,
                        shares: balances.blnd_usdc.shares,
                        value: v.total_values.blnd_usdc,
                    },
                    blnd_xlm: PoolTierData {
                        tokens: balances.blnd_xlm.tokens,
                        shares: balances.blnd_xlm.shares,
                        value: v.total_values.blnd_xlm,
                    },
                    q4w_pct,
                    usdc: PoolTierData {
                        tokens: balances.usdc.tokens,
                        shares: balances.usdc.shares,
                        value: v.total_values.usdc,
                    },
                },
            ),
        },
    }
}

/// The accounting and valuation of a pool's three tiers.
pub fn build_pool_data(
    e: &Env,
    is_pool: bool,
    balances: &TierBalances,
    anchor: Option<CometReading>,
    target: Option<CometReading>,
) -> (r: Result<PoolBackstopData, BackstopError>)
    requires
        balances.partition_fits(),
    ensures
        r == spec_pool_data(is_pool, *balances, anchor, target),
{
    let valuation = build_pool_valuation(e, is_pool, balances, anchor, target)?;
    let active_value: i128 = sum_activation_values(&valuation.active_values)?;
    let q4w_pct: i128 = calculate_q4w_percentage(
        e,
        &valuation.active_values,
        &valuation.queued_values,
    )?;
    Ok(
        PoolBackstopData {
            active_value,
            blnd_usdc: tier_data(&balances.blnd_usdc, valuation.total_values.blnd_usdc),
            blnd_xlm: tier_data(&balances.blnd_xlm, valuation.total_values.blnd_xlm),
            q4w_pct,
            usdc: tier_data(&balances.usdc, valuation.total_values.usdc),
        },
    )
}

} // verus!
