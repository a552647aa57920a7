//! Allocation of a pool's take rate over the backstop tiers.

use soroban_sdk::Env;
use vstd::prelude::*;

use super::bad_debt::{quote_lp_amount, spec_check_price};
use super::pool::PoolBalance;
use super::valuation::TierBalances;
use crate::dependencies::backstop_valuation::AssetValuation;
use crate::errors::BackstopError;
use crate::math::{fits_i128, lemma_quotient_bounds, mul_div_floor};
use crate::results::{collected, lemma_collected_error, lemma_collected_step};
use crate::Address;

verus! {

/// Take-rate weight of BLND:XLM value.
pub const TAKE_RATE_WEIGHT_BLND_XLM: i128 = 4;

/// Take-rate weight of BLND:USDC value.
pub const TAKE_RATE_WEIGHT_BLND_USDC: i128 = 3;

/// Take-rate weight of plain USDC value.
pub const TAKE_RATE_WEIGHT_USDC: i128 = 2;

/// The most reserves that one call can allocate.
pub const MAX_TAKE_RATE_BATCH: u32 = 4;

/// Verified pool-tier values used for one take-rate allocation.
#[derive(Clone, Copy, Debug, PartialEq, Eq, Structural)]
pub struct TakeRateValues {
    pub blnd_usdc: i128,
    pub blnd_xlm: i128,
    pub usdc: i128,
}

impl TakeRateValues {
    /// No value is negative.
    pub open spec fn well_formed(self) -> bool {
        0 <= self.blnd_usdc && 0 <= self.blnd_xlm && 0 <= self.usdc
    }

    /// The sum of the weighted values.
    pub open spec fn weight(self) -> int {
        self.blnd_usdc * TAKE_RATE_WEIGHT_BLND_USDC + self.blnd_xlm * TAKE_RATE_WEIGHT_BLND_XLM
            + self.usdc * TAKE_RATE_WEIGHT_USDC
    }
}

/// Canonical allocation for one reserve-credit amount:
/// BLND:XLM = 4, BLND:USDC = 3, and plain USDC = 2.
#[derive(Clone, Copy, Debug, PartialEq, Eq, Structural)]
pub struct TakeRateQuote {
    pub blnd_usdc: i128,
    pub blnd_xlm: i128,
    pub remainder: i128,
    pub usdc: i128,
}

/// The part of `distribution` that a weighted value earns, rounded down; nothing
/// where no tier has value.
pub open spec fn take_rate_part(distribution: int, weighted: int, total: int) -> int {
    if total == 0 {
        0
    } else {
        distribution * weighted / total
    }
}

/// The allocation of `distribution` over the tiers: a negative amount is
/// invalid, a total weight beyond an `i128` an overflow.
pub open spec fn spec_quote_take_rate(distribution: i128, values: TakeRateValues) -> Result<
    TakeRateQuote,
    BackstopError,
> {
    let total = values.weight();
    let d = distribution as int;
    let blnd_usdc = take_rate_part(d, values.blnd_usdc * TAKE_RATE_WEIGHT_BLND_USDC, total);
    let blnd_xlm = take_rate_part(d, values.blnd_xlm * TAKE_RATE_WEIGHT_BLND_XLM, total);
    let usdc = take_rate_part(d, values.usdc * TAKE_RATE_WEIGHT_USDC, total);
    if distribution < 0 || !values.well_formed() {
        Err(BackstopError::InvalidTakeRateValue)
    } else if !fits_i128(total) {
        Err(BackstopError::OverflowError)
    } else {
        Ok(
            TakeRateQuote {
                blnd_usdc: blnd_usdc as i128,
                blnd_xlm: blnd_xlm as i128,
                remainder: (d - blnd_usdc - blnd_xlm - usdc) as i128,
                usdc: usdc as i128,
            },
        )
    }
}

proof fn lemma_parts_within(d: int, a: int, b: int, c: int)
    requires
        d >= 0,
        a >= 0,
        b >= 0,
        c >= 0,
    ensures
        ({
            let total = a + b + c;
            let x = take_rate_part(d, a, total);
            let y = take_rate_part(d, b, total);
            let z = take_rate_part(d, c, total);
            &&& 0 <= x <= d
            &&& 0 <= y <= d
            &&& 0 <= z <= d
            &&& x + y + z <= d
            &&& (total > 0 ==> d - 2 <= x + y + z)
        }),
{
    let total = a + b + c;
    if total > 0 {
        assert(d * a >= 0 && d * b >= 0 && d * c >= 0 && d * a + d * b + d * c == d * total)
            by (nonlinear_arith)
            requires
                d >= 0,
                a >= 0,
                b >= 0,
                c >= 0,
                total == a + b + c,
        ;
        lemma_quotient_bounds(d * a, total);
        lemma_quotient_bounds(d * b, total);
        lemma_quotient_bounds(d * c, total);
        let x = d * a / total;
        let y = d * b / total;
        let z = d * c / total;
        assert(x + y + z <= d && d - 2 <= x + y + z) by (nonlinear_arith)
            requires
                x * total <= d * a < x * total + total,
                y * total <= d * b < y * total + total,
                z * total <= d * c < z * total + total,
                d * a + d * b + d * c == d * total,
                total > 0,
        ;
    }
}

/// An allocation hands out exactly the distribution: the parts and the remainder
/// add up to it, none is negative, and where some tier has value rounding leaves
/// at most two units over.
pub proof fn law_take_rate_conserves_the_distribution(distribution: i128, values: TakeRateValues)
    ensures
        spec_quote_take_rate(distribution, values) matches Ok(quote) ==> {
            &&& quote.blnd_usdc + quote.blnd_xlm + quote.usdc + quote.remainder == distribution
            &&& quote.blnd_usdc >= 0 && quote.blnd_xlm >= 0 && quote.usdc >= 0
            &&& quote.remainder >= 0
            &&& (values.weight() > 0 ==> quote.remainder <= 2)
            &&& (values.weight() == 0 ==> quote.remainder == distribution)
        },
{
    if distribution >= 0 && values.well_formed() {
        lemma_parts_within(
            distribution as int,
            values.blnd_usdc * TAKE_RATE_WEIGHT_BLND_USDC,
            values.blnd_xlm * TAKE_RATE_WEIGHT_BLND_XLM,
            values.usdc * TAKE_RATE_WEIGHT_USDC,
        );
    }
}

fn checked_add(left: i128, right: i128) -> (r: Result<i128, BackstopError>)
    ensures
        r == if fits_i128(left + right) {
            Ok((left + right) as i128)
        } else {
            Err(BackstopError::OverflowError)
        },
{
    match left.checked_add(right) {
        Some(sum) => Ok(sum),
        None => Err(BackstopError::OverflowError),
    }
}

fn checked_sub(left: i128, right: i128) -> (r: Result<i128, BackstopError>)
    ensures
        r == if 0 <= left - right <= i128::MAX {
            Ok((left - right) as i128)
        } else {
            Err(BackstopError::OverflowError)
        },
{
    match left.checked_sub(right) {
        Some(difference) => if difference >= 0 {
            Ok(difference)
        } else {
            Err(BackstopError::OverflowError)
        },
        None => Err(BackstopError::OverflowError),
    }
}

fn checked_mul(left: i128, right: i128) -> (r: Result<i128, BackstopError>)
    ensures
        r == if fits_i128(left * right) {
            Ok((left * right) as i128)
        } else {
            Err(BackstopError::OverflowError)
        },
{
    match left.checked_mul(right) {
        Some(product) => Ok(product),
        None => Err(BackstopError::OverflowError),
    }
}

fn proportional_floor(e: &Env, value: i128, numerator: i128, denominator: i128) -> (r: Result<
    i128,
    BackstopError,
>)
    requires
        value >= 0,
        numerator >= 0,
        denominator > 0,
    ensures
        r == if fits_i128(value * numerator / denominator as int) {
            Ok((value * numerator / denominator as int) as i128)
        } else {
            Err(BackstopError::OverflowError)
        },
{
    match mul_div_floor(e, value, numerator, denominator) {
        Some(quotient) => Ok(quotient),
        None => Err(BackstopError::OverflowError),
    }
}

/// Quote one reserve-credit allocation from already verified tier values.
pub fn quote_take_rate(e: &Env, distribution: i128, values: &TakeRateValues) -> (r: Result<
    TakeRateQuote,
    BackstopError,
>)
    ensures
        r == spec_quote_take_rate(distribution, *values),
{
    if distribution < 0 || values.blnd_usdc < 0 || values.blnd_xlm < 0 || values.usdc < 0 {
        return Err(BackstopError::InvalidTakeRateValue);
    }
    let blnd_usdc_weighted: i128 = checked_mul(values.blnd_usdc, TAKE_RATE_WEIGHT_BLND_USDC)?;
    let blnd_xlm_weighted: i128 = checked_mul(values.blnd_xlm, TAKE_RATE_WEIGHT_BLND_XLM)?;
    let usdc_weighted: i128 = checked_mul(values.usdc, TAKE_RATE_WEIGHT_USDC)?;
    let lp_weighted: i128 = checked_add(blnd_usdc_weighted, blnd_xlm_weighted)?;
    let denominator: i128 = checked_add(lp_weighted, usdc_weighted)?;
    if denominator == 0 {
        return Ok(TakeRateQuote { blnd_usdc: 0, blnd_xlm: 0, remainder: distribution, usdc: 0 });
    }
    proof {
        lemma_parts_within(
            distribution as int,
            blnd_usdc_weighted as int,
            blnd_xlm_weighted as int,
            usdc_weighted as int,
        );
    }
    let blnd_usdc: i128 = proportional_floor(e, distribution, blnd_usdc_weighted, denominator)?;
    let blnd_xlm: i128 = proportional_floor(e, distribution, blnd_xlm_weighted, denominator)?;
    let usdc: i128 = proportional_floor(e, distribution, usdc_weighted, denominator)?;
    let lp_allocated: i128 = checked_add(blnd_usdc, blnd_xlm)?;
    let allocated: i128 = checked_add(lp_allocated, usdc)?;
    let remainder: i128 = checked_sub(distribution, allocated)?;
    Ok(TakeRateQuote { blnd_usdc, blnd_xlm, remainder, usdc })
}

/// The value of an LP tier at the price of its whole balance.
pub open spec fn spec_tier_price(balance: PoolBalance, price: Option<AssetValuation>, now: u64) -> Result<
    i128,
    BackstopError,
> {
    if balance.tokens < 0 {
        Err(BackstopError::InvalidValuation)
    } else if balance.tokens == 0 {
        Ok(0)
    } else {
        match spec_check_price(price->Some_0, now) {
            Ok(_) => Ok(price->Some_0.usdc_value),
            Err(error) => Err(error),
        }
    }
}

/// The value of an LP tier; a tier without tokens needs no price.
pub fn quote_tier_value(balance: &PoolBalance, price: Option<AssetValuation>, now: u64) -> (r:
    Result<i128, BackstopError>)
    requires
        balance.tokens > 0 ==> price is Some,
    ensures
        r == spec_tier_price(*balance, price, now),
{
    if balance.tokens < 0 {
        return Err(BackstopError::InvalidValuation);
    }
    if balance.tokens == 0 {
        return Ok(0);
    }
    let price = price.unwrap();
    quote_lp_amount(&price, now)?;
    Ok(price.usdc_value)
}

/// The tier values for a pool's take rate, or the first error.
pub open spec fn spec_take_rate_values(
    balances: TierBalances,
    blnd_usdc_price: Option<AssetValuation>,
    blnd_xlm_price: Option<AssetValuation>,
    now: u64,
) -> Result<TakeRateValues, BackstopError> {
    match (
        spec_tier_price(balances.blnd_usdc, blnd_usdc_price, now),
        spec_tier_price(balances.blnd_xlm, blnd_xlm_price, now),
    ) {
        (Ok(blnd_usdc), Ok(blnd_xlm)) => Ok(
            TakeRateValues { blnd_usdc, blnd_xlm, usdc: balances.usdc.tokens },
        ),
        (Err(error), _) => Err(error),
        (_, Err(error)) => Err(error),
    }
}

/// The tier values for a pool's take rate.
pub fn build_take_rate_values(
    balances: &TierBalances,
    blnd_usdc_price: Option<AssetValuation>,
    blnd_xlm_price: Option<AssetValuation>,
    now: u64,
) -> (r: Result<TakeRateValues, BackstopError>)
    requires
        balances.blnd_usdc.tokens > 0 ==> blnd_usdc_price is Some,
        balances.blnd_xlm.tokens > 0 ==> blnd_xlm_price is Some,
    ensures
        r == spec_take_rate_values(*balances, blnd_usdc_price, blnd_xlm_price, now),
{
    let blnd_usdc: i128 = quote_tier_value(&balances.blnd_usdc, blnd_usdc_price, now)?;
    let blnd_xlm: i128 = quote_tier_value(&balances.blnd_xlm, blnd_xlm_price, now)?;
    Ok(TakeRateValues { blnd_usdc, blnd_xlm, usdc: balances.usdc.tokens })
}

/// The allocation of each entry of a batch, under the entry's asset.
pub open spec fn spec_batch_entry(entry: (Address, i128), values: TakeRateValues) -> Result<
    (Address, TakeRateQuote),
    BackstopError,
> {
    match spec_quote_take_rate(entry.1, values) {
        Ok(quote) => Ok((entry.0, quote)),
        Err(error) => Err(error),
    }
}

/// The allocation of a whole batch, or the first error.
pub open spec fn spec_take_rate_batch(
    is_pool: bool,
    distributions: Seq<(Address, i128)>,
    values: Result<TakeRateValues, BackstopError>,
) -> Result<Seq<(Address, TakeRateQuote)>, BackstopError> {
    if !is_pool {
        Err(BackstopError::NotPool)
    } else if distributions.len() == 0 || distributions.len() > MAX_TAKE_RATE_BATCH {
        Err(BackstopError::InvalidTakeRateValue)
    } else {
        match values {
            Err(error) => Err(error),
            Ok(values) => collected(
                distributions.map_values(|entry: (Address, i128)| spec_batch_entry(entry, values)),
            ),
        }
    }
}

/// Allocate a bounded reserve-credit batch using canonical pool-tier value. Each
/// entry of the batch is a reserve asset with the amount that it distributes.
pub fn quote_pool_take_rate_batch(
    e: &Env,
    is_pool: bool,
    distributions: &Vec<(Address, i128)>,
    balances: &TierBalances,
    blnd_usdc_price: Option<AssetValuation>,
    blnd_xlm_price: Option<AssetValuation>,
    now: u64,
) -> (r: Result<Vec<(Address, TakeRateQuote)>, BackstopError>)
    requires
        balances.blnd_usdc.tokens > 0 ==> blnd_usdc_price is Some,
        balances.blnd_xlm.tokens > 0 ==> blnd_xlm_price is Some,
    ensures
        ({
            let spec = spec_take_rate_batch(
                is_pool,
                distributions@,
                spec_take_rate_values(*balances, blnd_usdc_price, blnd_xlm_price, now),
            );
            match r {
                Ok(quotes) => spec == Ok::<Seq<(Address, TakeRateQuote)>, BackstopError>(quotes@),
                Err(error) => spec == Err::<Seq<(Address, TakeRateQuote)>, BackstopError>(error),
            }
        }),
{
    if !is_pool {
        return Err(BackstopError::NotPool);
    }
    if distributions.len() == 0 || distributions.len() > MAX_TAKE_RATE_BATCH as usize {
        return Err(BackstopError::InvalidTakeRateValue);
    }
    let values = build_take_rate_values(balances, blnd_usdc_price, blnd_xlm_price, now)?;
    let ghost entries = distributions@.map_values(
        |entry: (Address, i128)| spec_batch_entry(entry, values),
    );
    let mut quotes: Vec<(Address, TakeRateQuote)> = Vec::new();
    let mut index: usize = 0;
    while index < distributions.len()
        invariant
            index <= distributions@.len(),
            is_pool,
            0 < distributions@.len() <= MAX_TAKE_RATE_BATCH,
            entries == distributions@.map_values(
                |entry: (Address, i128)| spec_batch_entry(entry, values),
            ),
            spec_take_rate_values(*balances, blnd_usdc_price, blnd_xlm_price, now) == Ok::<
                TakeRateValues,
                BackstopError,
            >(values),
            collected(entries.take(index as int)) == Ok::<
                Seq<(Address, TakeRateQuote)>,
                BackstopError,
            >(quotes@),
        decreases distributions@.len() - index,
    {
        let entry: (Address, i128) = distributions[index];
        proof {
            lemma_collected_step(entries, index as int);
            if entries[index as int] is Err {
                lemma_collected_error(entries, index + 1);
            }
        }
        let quote = quote_take_rate(e, entry.1, &values)?;
        quotes.push((entry.0, quote));
        index = index + 1;
    }
    assert(entries.take(index as int) =~= entries);
    Ok(quotes)
}

} // verus!
