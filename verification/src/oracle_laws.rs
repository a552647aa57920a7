//! What the oracle's prices say.

use vstd::prelude::*;

use crate::oracle::{
    law_price_keys_are_distinct, spec_earlier, spec_price_data, spec_price_key, spec_price_run,
    spec_set_indexes, spec_set_prices,
};

verus! {

/// The time of the price that is `k` steps before another.
pub open spec fn steps_before(timestamp: u64, resolution: u64, k: int) -> int {
    if k * resolution <= timestamp {
        timestamp - k * resolution
    } else {
        0
    }
}

/// A run of prices goes back from the last one step at a time, and ends at the first that
/// is missing or when it has as many as asked for.
pub proof fn law_price_runs_go_back_step_by_step(
    records: Map<u128, i128>,
    asset_index: u8,
    timestamp: u64,
    resolution: u64,
    count: nat,
    now: u64,
)
    ensures
        ({
            let run = spec_price_run(records, asset_index, timestamp, resolution, count, now);
            &&& run.len() <= count
            &&& forall|k: int|
                0 <= k < run.len() ==> spec_price_data(
                    records,
                    asset_index,
                    steps_before(timestamp, resolution, k) as u64,
                    now,
                ) == Some(#[trigger] run[k])
            &&& run.len() < count ==> spec_price_data(
                records,
                asset_index,
                steps_before(timestamp, resolution, run.len() as int) as u64,
                now,
            ) is None
        }),
    decreases count,
{
    assert(steps_before(timestamp, resolution, 0) == timestamp) by {
        assert(0 * resolution == 0);
    }
    if count > 0 && spec_price_data(records, asset_index, timestamp, now) is Some {
        let earlier = spec_earlier(timestamp, resolution);
        let run = spec_price_run(records, asset_index, timestamp, resolution, count, now);
        let rest = spec_price_run(
            records,
            asset_index,
            earlier,
            resolution,
            (count - 1) as nat,
            now,
        );
        law_price_runs_go_back_step_by_step(
            records,
            asset_index,
            earlier,
            resolution,
            (count - 1) as nat,
            now,
        );
        assert(run.len() == rest.len() + 1);
        assert forall|k: int| 0 <= k < run.len() implies spec_price_data(
            records,
            asset_index,
            steps_before(timestamp, resolution, k) as u64,
            now,
        ) == Some(#[trigger] run[k]) by {
            if k > 0 {
                assert(run[k] == rest[k - 1]);
                lemma_one_step(timestamp, resolution, k - 1);
            }
        }
        lemma_one_step(timestamp, resolution, rest.len() as int);
    }
}

proof fn lemma_one_step(timestamp: u64, resolution: u64, k: int)
    requires
        k >= 0,
    ensures
        steps_before(spec_earlier(timestamp, resolution), resolution, k) == steps_before(
            timestamp,
            resolution,
            k + 1,
        ),
        0 <= steps_before(timestamp, resolution, k + 1) <= timestamp,
{
    assert((k + 1) * resolution == k * resolution + resolution) by (nonlinear_arith);
    assert(k * resolution >= 0) by (nonlinear_arith)
        requires
            k >= 0,
            resolution >= 0,
    ;
}

/// A price is the one recorded for its asset and time. It bears that time, or that of the
/// call where it holds at any.
pub proof fn law_prices_bear_their_time(
    records: Map<u128, i128>,
    asset_index: u8,
    timestamp: u64,
    now: u64,
)
    ensures
        ({
            let key = (timestamp * 0x1_0000_0000_0000_0000int + asset_index) as u128;
            let r = spec_price_data(records, asset_index, timestamp, now);
            &&& r is Some <==> records.contains_key(key)
            &&& r matches Some(data) ==> {
                &&& data.price == records[key]
                &&& data.timestamp == if timestamp == 0 {
                    now
                } else {
                    timestamp
                }
            }
        }),
{
}

/// Setting the prices of one time leaves those of every other as they were.
pub proof fn law_prices_of_other_times_stay(
    records: Map<u128, i128>,
    prices: Seq<i128>,
    timestamp: u64,
    index: u8,
    other: u64,
    now: u64,
)
    requires
        prices.len() <= 256,
        other != timestamp,
    ensures
        spec_price_data(spec_set_prices(records, prices, timestamp), index, other, now)
            == spec_price_data(records, index, other, now),
    decreases prices.len(),
{
    if prices.len() > 0 {
        law_prices_of_other_times_stay(records, prices.drop_last(), timestamp, index, other, now);
        let at = (prices.len() - 1) as u8;
        if spec_price_key(at, timestamp) == spec_price_key(index, other) {
            law_price_keys_are_distinct(at, timestamp, index, other);
        }
    }
}

/// An asset's index is its last place in the list, and assets that are not listed keep
/// theirs.
pub proof fn law_assets_are_indexed_by_place(indexes: Map<u64, u32>, assets: Seq<u64>, asset: u64)
    requires
        assets.len() <= u32::MAX,
    ensures
        ({
            let next = spec_set_indexes(indexes, assets);
            &&& forall|i: int|
                0 <= i < assets.len() && #[trigger] assets[i] == asset && (forall|j: int|
                    i < j < assets.len() ==> #[trigger] assets[j] != asset) ==> next.contains_key(
                    asset,
                ) && next[asset] == i
            &&& !assets.contains(asset) ==> (next.contains_key(asset) <==> indexes.contains_key(
                asset,
            )) && (indexes.contains_key(asset) ==> next[asset] == indexes[asset])
        }),
    decreases assets.len(),
{
    if assets.len() > 0 {
        let init = assets.drop_last();
        let n = assets.len() - 1;
        law_assets_are_indexed_by_place(indexes, init, asset);
        let next = spec_set_indexes(indexes, assets);
        assert forall|i: int|
            0 <= i < assets.len() && #[trigger] assets[i] == asset && (forall|j: int|
                i < j < assets.len() ==> #[trigger] assets[j] != asset) implies next.contains_key(
            asset,
        ) && next[asset] == i by {
            if i < n {
                assert(init[i] == asset);
                assert(assets[n] != asset);
                assert forall|j: int| i < j < init.len() implies #[trigger] init[j] != asset by {
                    assert(assets[j] != asset);
                }
            }
        }
        if !assets.contains(asset) {
            assert(!init.contains(asset)) by {
                if init.contains(asset) {
                    let i = choose|i: int| 0 <= i < init.len() && init[i] == asset;
                    assert(assets[i] == asset);
                }
            }
            assert(assets[n] != asset);
        }
    }
}

} // verus!
