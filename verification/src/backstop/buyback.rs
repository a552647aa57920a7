//! Conversion of pending buyback proceeds into BLND that is burned.

use vstd::prelude::*;

use super::pool::{BackstopAsset, BackstopAssets};
use crate::constants::{
    BUYBACK_MAX_PRICE_DENOMINATOR, BUYBACK_MAX_PRICE_NUMERATOR, BUYBACK_MAX_RESERVE_DENOMINATOR,
    BUYBACK_MAX_RESERVE_NUMERATOR, SCALAR_7,
};
use crate::errors::BackstopError;
use crate::math::{
    ceil_div, fits_i128, fixed_mul_ceil, fixed_mul_floor, lemma_ceil_by_floor,
    lemma_quotient_bounds,
};
use crate::Address;

verus! {

/// What one call of the buyback has done.
#[derive(Clone, Copy, Debug, PartialEq, Eq, Structural)]
pub struct BuybackResult {
    pub blnd_burned: i128,
    pub pair_in: i128,
    pub pending: i128,
}

/// A call that has nothing to do leaves the pending amount alone.
pub open spec fn spec_no_work(pending: i128) -> BuybackResult {
    BuybackResult { blnd_burned: 0, pair_in: 0, pending }
}

/// A call that has nothing to do leaves the pending amount alone.
pub fn no_work(pending: i128) -> (r: BuybackResult)
    ensures
        r == spec_no_work(pending),
{
    BuybackResult { blnd_burned: 0, pair_in: 0, pending }
}

/// The swap that a buyback asks its Comet pool for.
#[derive(Clone, Copy, Debug, PartialEq, Eq, Structural)]
pub struct BuybackOrder {
    /// The pending amount before the swap.
    pub pending: i128,
    /// The amount of the pair token that goes in.
    pub pair_in: i128,
    /// The least amount of BLND that has to come out.
    pub min_blnd_out: i128,
    /// The highest price that the pool may have after the swap.
    pub max_price: i128,
}

/// The next step of a buyback.
#[derive(Clone, Copy, Debug, PartialEq, Eq, Structural)]
pub enum BuybackStep {
    /// Nothing to do.
    Done(BuybackResult),
    /// Read the Comet pool's reserve of the pair token.
    ReadReserve,
    /// Read the Comet pool's spot price of BLND in the pair token.
    ReadPrice,
    /// Swap.
    Swap(BuybackOrder),
}

/// The Comet pool that buys back with an asset: those of the plain assets only.
pub fn buyback_comet(assets: &BackstopAssets, asset: BackstopAsset) -> (r: Result<
    Address,
    BackstopError,
>)
    ensures
        r == match asset {
            BackstopAsset::Usdc => Ok(assets.blnd_usdc),
            BackstopAsset::Xlm => Ok(assets.blnd_xlm),
            _ => Err(BackstopError::BadRequest),
        },
{
    match asset {
        BackstopAsset::Usdc => Ok(assets.blnd_usdc),
        BackstopAsset::Xlm => Ok(assets.blnd_xlm),
        _ => Err(BackstopError::BadRequest),
    }
}

/// The amount that one call converts: what is pending, up to 0.5% of the reserve.
pub open spec fn spec_batch(pending: int, pair_reserve: int) -> int {
    let limit = pair_reserve * BUYBACK_MAX_RESERVE_NUMERATOR
        / BUYBACK_MAX_RESERVE_DENOMINATOR as int;
    if pending <= limit {
        pending
    } else {
        limit
    }
}

/// The highest price that the pool may have after the swap: 1% above the spot price, rounded up.
pub open spec fn spec_max_price(spot_price: int) -> int {
    ceil_div(spot_price * BUYBACK_MAX_PRICE_NUMERATOR, BUYBACK_MAX_PRICE_DENOMINATOR as int)
}

/// The least amount of BLND that has to come out: what the highest price buys, rounded down.
pub open spec fn spec_min_blnd_out(pair_in: int, max_price: int) -> int {
    pair_in * SCALAR_7 / max_price
}

/// The step that follows a known reserve and spot price.
pub open spec fn spec_priced_step(pending: i128, pair_in: int, spot_price: i128) -> Result<
    BuybackStep,
    BackstopError,
> {
    let max_price = spec_max_price(spot_price as int);
    let min_out = spec_min_blnd_out(pair_in, max_price);
    if spot_price <= 0 {
        Err(BackstopError::InvalidValuation)
    } else if !fits_i128(spot_price * BUYBACK_MAX_PRICE_NUMERATOR) || !fits_i128(
        pair_in * SCALAR_7,
    ) {
        Err(BackstopError::OverflowError)
    } else if min_out <= 0 {
        Ok(BuybackStep::Done(spec_no_work(pending)))
    } else {
        Ok(
            BuybackStep::Swap(
                BuybackOrder {
                    pending,
                    pair_in: pair_in as i128,
                    min_blnd_out: min_out as i128,
                    max_price: max_price as i128,
                },
            ),
        )
    }
}

/// The next step of a buyback with what has been read so far.
pub open spec fn spec_buyback_step(
    asset: BackstopAsset,
    pending: i128,
    pair_reserve: Option<i128>,
    spot_price: Option<i128>,
) -> Result<BuybackStep, BackstopError> {
    if asset != BackstopAsset::Usdc && asset != BackstopAsset::Xlm {
        Err(BackstopError::BadRequest)
    } else if pending <= 0 {
        Ok(BuybackStep::Done(spec_no_work(pending)))
    } else {
        match pair_reserve {
            None => Ok(BuybackStep::ReadReserve),
            Some(reserve) => if reserve <= 0 {
                Err(BackstopError::InvalidValuation)
            } else if spec_batch(pending as int, reserve as int) <= 0 {
                Ok(BuybackStep::Done(spec_no_work(pending)))
            } else {
                match spot_price {
                    None => Ok(BuybackStep::ReadPrice),
                    Some(price) => spec_priced_step(
                        pending,
                        spec_batch(pending as int, reserve as int),
                        price,
                    ),
                }
            },
        }
    }
}

/// Plan the conversion of one bounded pending USDC or XLM batch through its
/// canonical Comet pool. Calls without work return zeroes.
pub fn execute_buy_and_burn(
    asset: BackstopAsset,
    pending: i128,
    pair_reserve: Option<i128>,
    spot_price: Option<i128>,
) -> (r: Result<BuybackStep, BackstopError>)
    ensures
        r == spec_buyback_step(asset, pending, pair_reserve, spot_price),
{
    match asset {
        BackstopAsset::Usdc | BackstopAsset::Xlm => {},
        _ => return Err(BackstopError::BadRequest),
    }
    if pending <= 0 {
        return Ok(BuybackStep::Done(no_work(pending)));
    }
    let pair_reserve: i128 = match pair_reserve {
        Some(pair_reserve) => pair_reserve,
        None => return Ok(BuybackStep::ReadReserve),
    };
    if pair_reserve <= 0 {
        return Err(BackstopError::InvalidValuation);
    }
    proof {
        lemma_quotient_bounds(
            pair_reserve * BUYBACK_MAX_RESERVE_NUMERATOR,
            BUYBACK_MAX_RESERVE_DENOMINATOR as int,
        );
    }
    let batch_limit: i128 = match fixed_mul_floor(
        pair_reserve,
        BUYBACK_MAX_RESERVE_NUMERATOR,
        BUYBACK_MAX_RESERVE_DENOMINATOR,
    ) {
        Some(batch_limit) => batch_limit,
        None => return Err(BackstopError::OverflowError),
    };
    let pair_in: i128 = if pending <= batch_limit {
        pending
    } else {
        batch_limit
    };
    if pair_in <= 0 {
        return Ok(BuybackStep::Done(no_work(pending)));
    }
    let spot_price: i128 = match spot_price {
        Some(spot_price) => spot_price,
        None => return Ok(BuybackStep::ReadPrice),
    };
    if spot_price <= 0 {
        return Err(BackstopError::InvalidValuation);
    }
    proof {
        lemma_ceil_by_floor(
            spot_price * BUYBACK_MAX_PRICE_NUMERATOR,
            BUYBACK_MAX_PRICE_DENOMINATOR as int,
        );
        let max = spec_max_price(spot_price as int);
        assert(0 < max <= spot_price * BUYBACK_MAX_PRICE_NUMERATOR);
        lemma_quotient_bounds(pair_in * SCALAR_7, max);
    }
    let max_price: i128 = match fixed_mul_ceil(
        spot_price,
        BUYBACK_MAX_PRICE_NUMERATOR,
        BUYBACK_MAX_PRICE_DENOMINATOR,
    ) {
        Some(max_price) => max_price,
        None => return Err(BackstopError::OverflowError),
    };
    let min_blnd_out: i128 = match fixed_mul_floor(pair_in, SCALAR_7, max_price) {
        Some(min_blnd_out) => min_blnd_out,
        None => return Err(BackstopError::OverflowError),
    };
    if min_blnd_out <= 0 {
        return Ok(BuybackStep::Done(no_work(pending)));
    }
    Ok(BuybackStep::Swap(BuybackOrder { pending, pair_in, min_blnd_out, max_price }))
}

/// What a swap did, as the pool reports it and as the token balances show it.
#[derive(Clone, Copy, Debug, PartialEq, Eq, Structural)]
pub struct SwapReport {
    pub pair_before: i128,
    pub pair_after: i128,
    pub blnd_before: i128,
    pub blnd_after: i128,
    pub reported_blnd_out: i128,
    pub reported_spot_price: i128,
}

/// Whether a swap kept to its order: exactly the ordered amount went in, at
/// least the ordered minimum came out, as reported, and the price stayed in bounds.
pub open spec fn swap_kept_to(order: BuybackOrder, report: SwapReport) -> bool {
    let blnd_out = report.blnd_after - report.blnd_before;
    &&& fits_i128(blnd_out)
    &&& report.pair_before - report.pair_after == order.pair_in
    &&& blnd_out > 0
    &&& blnd_out >= order.min_blnd_out
    &&& report.reported_blnd_out == blnd_out
    &&& 0 < report.reported_spot_price <= order.max_price
}

/// The BLND that a swap brought in and that has to be burned.
pub fn check_swap(order: &BuybackOrder, report: &SwapReport) -> (r: Result<i128, BackstopError>)
    ensures
        r == if swap_kept_to(*order, *report) {
            Ok((report.blnd_after - report.blnd_before) as i128)
        } else {
            Err(BackstopError::BalanceError)
        },
{
    let blnd_out: i128 = match report.blnd_after.checked_sub(report.blnd_before) {
        Some(blnd_out) => blnd_out,
        None => return Err(BackstopError::BalanceError),
    };
    match report.pair_before.checked_sub(report.pair_after) {
        None => return Err(BackstopError::BalanceError),
        Some(pair_spent) => {
            if pair_spent != order.pair_in || blnd_out <= 0 || blnd_out < order.min_blnd_out
                || report.reported_blnd_out != blnd_out || report.reported_spot_price <= 0
                || report.reported_spot_price > order.max_price {
                return Err(BackstopError::BalanceError);
            }
        },
    }
    Ok(blnd_out)
}

/// Close a buyback after the burn: the BLND balance must be back where it was.
pub fn finish_buyback(
    order: &BuybackOrder,
    blnd_out: i128,
    blnd_before: i128,
    blnd_after_burn: i128,
) -> (r: Result<BuybackResult, BackstopError>)
    ensures
        r == if blnd_after_burn != blnd_before {
            Err(BackstopError::BalanceError)
        } else if !fits_i128(order.pending - order.pair_in) {
            Err(BackstopError::OverflowError)
        } else {
            Ok(
                BuybackResult {
                    blnd_burned: blnd_out,
                    pair_in: order.pair_in,
                    pending: (order.pending - order.pair_in) as i128,
                },
            )
        },
{
    if blnd_after_burn != blnd_before {
        return Err(BackstopError::BalanceError);
    }
    let next_pending: i128 = match order.pending.checked_sub(order.pair_in) {
        Some(next_pending) => next_pending,
        None => return Err(BackstopError::OverflowError),
    };
    Ok(BuybackResult { blnd_burned: blnd_out, pair_in: order.pair_in, pending: next_pending })
}

/// An order is bounded: it spends no more than is pending and no more than 0.5%
/// of the reserve, its price limit lies no more than one unit above 101% of the
/// spot price, and it asks for no more BLND than the price limit buys.
pub proof fn law_orders_are_bounded(
    asset: BackstopAsset,
    pending: i128,
    pair_reserve: i128,
    spot_price: i128,
)
    ensures
        spec_buyback_step(asset, pending, Some(pair_reserve), Some(spot_price)) matches Ok(
            BuybackStep::Swap(order),
        ) ==> {
            &&& 0 < order.pair_in <= pending
            &&& order.pair_in * 200 <= pair_reserve
            &&& spot_price * 101 <= order.max_price * 100 < spot_price * 101 + 100
            &&& 0 < order.min_blnd_out
            &&& order.min_blnd_out * order.max_price <= order.pair_in * SCALAR_7
            &&& order.pending == pending
        },
{
    let step = spec_buyback_step(asset, pending, Some(pair_reserve), Some(spot_price));
    if let Ok(BuybackStep::Swap(order)) = step {
        let pair_in = spec_batch(pending as int, pair_reserve as int);
        lemma_quotient_bounds(pair_reserve as int, 200);
        lemma_ceil_by_floor(spot_price * 101, 100);
        let max = spec_max_price(spot_price as int);
        lemma_quotient_bounds(pair_in * SCALAR_7, max);
    }
}

/// The ledger up to which the token approval of a swap runs: the end of the
/// current period of 100,000 ledgers.
pub open spec fn spec_approval_ledger(sequence: u32) -> int {
    (sequence / 100_000 + 1) * 100_000
}

/// The ledger up to which the token approval of a swap runs.
pub fn approval_ledger(sequence: u32) -> (r: Result<u32, BackstopError>)
    ensures
        r == if spec_approval_ledger(sequence) <= u32::MAX {
            Ok(spec_approval_ledger(sequence) as u32)
        } else {
            Err(BackstopError::OverflowError)
        },
        r matches Ok(ledger) ==> sequence < ledger <= sequence + 100_000 && ledger % 100_000 == 0,
{
    let period: u32 = sequence / 100_000;
    match (period + 1).checked_mul(100_000) {
        Some(ledger) => Ok(ledger),
        None => Err(BackstopError::OverflowError),
    }
}

} // verus!
