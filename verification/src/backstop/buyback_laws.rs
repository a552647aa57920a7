//! What a buyback converts.

use vstd::prelude::*;

use super::buyback::{
    law_orders_are_bounded, spec_batch, spec_buyback_step, spec_max_price, spec_min_blnd_out,
    swap_kept_to, BuybackOrder, BuybackStep, SwapReport,
};
use super::pool::BackstopAsset;
use crate::errors::BackstopError;
use crate::math::{
    is_ceil_of, is_floor_of, lemma_ceil, lemma_ceil_is_unique, lemma_floor, lemma_floor_is_unique,
};

verus! {

/// Whether this is the most of a pending amount that a buyback takes at once: all of it,
/// where that is within half a percent of the reserve, and else the greatest amount that
/// is.
pub open spec fn is_batch(pair_in: int, pending: int, pair_reserve: int) -> bool {
    if pending * 200 <= pair_reserve {
        pair_in == pending
    } else {
        is_floor_of(pair_in, pair_reserve, 200)
    }
}

proof fn lemma_batch(pending: int, pair_reserve: int)
    requires
        pending > 0,
        pair_reserve > 0,
    ensures
        is_batch(spec_batch(pending, pair_reserve), pending, pair_reserve),
        spec_batch(pending, pair_reserve) > 0 <==> pair_reserve >= 200,
{
    lemma_floor(pair_reserve, 200);
}

/// Every order takes as much of the pending amount as the pool bears at once, and never
/// waits for more: it takes all of it or half a percent of the reserve, rounded down. The
/// highest price is the spot price with one percent on top, rounded up, and the least
/// output is what the input buys at that price, rounded down.
pub proof fn law_orders_take_all_that_the_pool_bears(
    asset: BackstopAsset,
    pending: i128,
    pair_reserve: i128,
    spot_price: i128,
)
    ensures
        spec_buyback_step(asset, pending, Some(pair_reserve), Some(spot_price)) matches Ok(
            BuybackStep::Swap(order),
        ) ==> {
            &&& order.pending == pending
            &&& order.pair_in == pending || is_floor_of(
                order.pair_in as int,
                pair_reserve as int,
                200,
            )
            &&& pending * 200 <= pair_reserve ==> order.pair_in == pending
            &&& is_ceil_of(order.max_price as int, spot_price * 101, 100)
            &&& is_floor_of(
                order.min_blnd_out as int,
                order.pair_in * 10_000_000,
                order.max_price as int,
            )
        },
{
    law_orders_are_bounded(asset, pending, pair_reserve, spot_price);
    if let Ok(BuybackStep::Swap(order)) = spec_buyback_step(
        asset,
        pending,
        Some(pair_reserve),
        Some(spot_price),
    ) {
        lemma_batch(pending as int, pair_reserve as int);
        lemma_floor(order.pair_in * 10_000_000, spec_max_price(spot_price as int));
        let q = spec_min_blnd_out(order.pair_in as int, order.max_price as int);
        assert(q <= order.pair_in * 10_000_000) by (nonlinear_arith)
            requires
                q * order.max_price <= order.pair_in * 10_000_000,
                order.max_price > 0,
                order.pair_in > 0,
        ;
    }
}

/// A swap is owed as soon as anything is pending: wherever the reserve bears at least one
/// unit and what the batch buys at the highest price is at least one unit of BLND.
pub proof fn law_swaps_are_owed(
    asset: BackstopAsset,
    pending: i128,
    pair_reserve: i128,
    spot_price: i128,
    pair_in: int,
    max_price: int,
)
    requires
        asset == BackstopAsset::Usdc || asset == BackstopAsset::Xlm,
        pending > 0,
        pair_reserve >= 200,
        spot_price > 0,
        spot_price * 101 <= i128::MAX,
        is_batch(pair_in, pending as int, pair_reserve as int),
        pair_in * 10_000_000 <= i128::MAX,
        is_ceil_of(max_price, spot_price * 101, 100),
        max_price <= pair_in * 10_000_000,
    ensures
        spec_buyback_step(asset, pending, Some(pair_reserve), Some(spot_price)) matches Ok(
            BuybackStep::Swap(order),
        ) && order.pair_in == pair_in && order.max_price == max_price,
{
    lemma_batch(pending as int, pair_reserve as int);
    if pending * 200 > pair_reserve {
        lemma_floor_is_unique(pair_in, pair_reserve as int, 200);
        lemma_floor_is_unique(
            spec_batch(pending as int, pair_reserve as int),
            pair_reserve as int,
            200,
        );
    }
    lemma_ceil_is_unique(max_price, spot_price * 101, 100);
    lemma_floor(pair_in * 10_000_000, max_price);
    let out = spec_min_blnd_out(pair_in, max_price);
    assert(out > 0) by (nonlinear_arith)
        requires
            out * max_price + max_price > pair_in * 10_000_000,
            pair_in * 10_000_000 >= max_price,
            max_price > 0,
    ;
    assert(out <= pair_in * 10_000_000) by (nonlinear_arith)
        requires
            out * max_price <= pair_in * 10_000_000,
            max_price > 0,
            out > 0,
    ;
}

/// Before it swaps, a buyback reads the reserve and the price, in that order, and only
/// where something is pending. It ends without a swap, and with the pending amount as it
/// was, only where nothing is pending, the reserve bears no unit, or the batch buys
/// nothing. Only the two pair tokens are bought back, and a Comet pool without reserve or
/// price is refused.
pub proof fn law_buybacks_wait_only_for_want_of_work(
    asset: BackstopAsset,
    pending: i128,
    pair_reserve: Option<i128>,
    spot_price: Option<i128>,
)
    ensures
        ({
            let step = spec_buyback_step(asset, pending, pair_reserve, spot_price);
            let paired = asset == BackstopAsset::Usdc || asset == BackstopAsset::Xlm;
            &&& !paired <==> step == Err::<BuybackStep, BackstopError>(BackstopError::BadRequest)
            &&& step == Ok::<BuybackStep, BackstopError>(BuybackStep::ReadReserve) <==> paired
                && pending > 0 && pair_reserve is None
            &&& step == Ok::<BuybackStep, BackstopError>(BuybackStep::ReadPrice) <==> paired
                && pending > 0 && (pair_reserve matches Some(reserve) && reserve >= 200) && spot_price is None
            &&& step == Err::<BuybackStep, BackstopError>(BackstopError::InvalidValuation)
                <==> paired && pending > 0 && (pair_reserve matches Some(reserve) && (reserve <= 0 || (reserve
                >= 200 && (spot_price matches Some(price) && price <= 0))))
            &&& step matches Ok(BuybackStep::Done(result)) ==> {
                &&& result.blnd_burned == 0
                &&& result.pair_in == 0
                &&& result.pending == pending
                &&& pending <= 0 || (pair_reserve matches Some(reserve) && (0 < reserve < 200 || (
                spot_price matches Some(price) && exists|pair_in: int, max_price: int|
                    {
                        &&& #[trigger] is_batch(pair_in, pending as int, reserve as int)
                        &&& #[trigger] is_ceil_of(max_price, price * 101, 100)
                        &&& pair_in * 10_000_000 < max_price
                    })))
            }
            &&& paired && (pending <= 0 || (pair_reserve matches Some(reserve) && 0 < reserve
                < 200)) ==> step matches Ok(BuybackStep::Done(_))
        }),
{
    let step = spec_buyback_step(asset, pending, pair_reserve, spot_price);
    if let Some(reserve) = pair_reserve {
        if pending > 0 && reserve > 0 {
            lemma_batch(pending as int, reserve as int);
            let batch = spec_batch(pending as int, reserve as int);
            if let Some(price) = spot_price {
                if price > 0 && batch > 0 {
                    lemma_ceil(price * 101, 100);
                    let max_price = spec_max_price(price as int);
                    lemma_floor(batch * 10_000_000, max_price);
                    let out = spec_min_blnd_out(batch, max_price);
                    if out <= 0 {
                        assert(batch * 10_000_000 < max_price) by (nonlinear_arith)
                            requires
                                batch * 10_000_000 < out * max_price + max_price,
                                out <= 0,
                                max_price > 0,
                        ;
                        assert(is_batch(batch, pending as int, reserve as int));
                        assert(is_ceil_of(max_price, price * 101, 100));
                    }
                }
            }
        }
    }
}

/// A swap stands only where exactly the ordered amount went in, and the BLND that came out
/// is what the pool reports, at least one unit and at least the ordered minimum, at a
/// price that is positive and no higher than ordered.
pub proof fn law_swaps_are_held_to_their_order(order: BuybackOrder, report: SwapReport)
    ensures
        swap_kept_to(order, report) <==> {
            &&& report.pair_before == report.pair_after + order.pair_in
            &&& report.blnd_after == report.blnd_before + report.reported_blnd_out
            &&& report.reported_blnd_out >= 1
            &&& report.reported_blnd_out >= order.min_blnd_out
            &&& report.reported_spot_price >= 1
            &&& report.reported_spot_price <= order.max_price
        },
{
}

} // verus!
