//! A price oracle whose prices are set by hand.

use std::collections::HashMap;
use vstd::prelude::*;

use crate::Address;

verus! {

broadcast use vstd::std_specs::hash::group_hash_axioms;

/// Errors of the price oracle.
#[derive(Clone, Copy, Debug, PartialEq, Eq, PartialOrd, Ord, Structural)]
pub enum PriceOracleError {
    AssetMissing,
}

impl PriceOracleError {
    /// The number under which the contract reports the error.
    pub fn code(self) -> (r: u32)
        ensures
            r == 2,
    {
        match self {
            PriceOracleError::AssetMissing => 2,
        }
    }
}

/// A price and the time that it holds for.
#[derive(Clone, Copy, Debug, PartialEq, Eq, Structural)]
pub struct PriceData {
    pub price: i128,
    pub timestamp: u64,
}

/// The most prices that one call returns.
pub const MAX_RECORDS: u32 = 20;

/// The key that a price is kept under: the time, then the position of the asset.
pub open spec fn spec_price_key(asset_index: u8, timestamp: u64) -> int {
    timestamp * 0x1_0000_0000_0000_0000int + asset_index
}

/// The key that a price is kept under.
pub fn price_key(asset_index: u8, timestamp: u64) -> (r: u128)
    ensures
        r == spec_price_key(asset_index, timestamp),
{
    let time: u128 = timestamp as u128;
    let index: u128 = asset_index as u128;
    assert((time << 64u32) | index == time * 0x1_0000_0000_0000_0000 + index) by (bit_vector)
        requires
            time <= 0xffff_ffff_ffff_ffff,
            index <= 0xff,
    ;
    (time << 64) | index
}

/// Prices of different assets or times are kept under different keys.
pub proof fn law_price_keys_are_distinct(i: u8, s: u64, j: u8, t: u64)
    requires
        spec_price_key(i, s) == spec_price_key(j, t),
    ensures
        i == j && s == t,
{
}

/// The oracle's records. Assets are named by the identifiers that their host assigns them.
pub struct MockPriceOracle {
    /// The assets that are priced.
    pub assets: Vec<u64>,
    /// The position of each asset.
    pub indexes: HashMap<u64, u32>,
    /// The prices by key.
    pub records: HashMap<u128, i128>,
    pub base: Address,
    pub decimals: u32,
    /// The seconds between two prices.
    pub resolution: u32,
    /// The time of the last prices; zero for prices that hold at any time.
    pub last_timestamp: u64,
}

/// The price of an asset at a time, if it is set. A price under time zero holds now.
pub open spec fn spec_price_data(
    records: Map<u128, i128>,
    asset_index: u8,
    timestamp: u64,
    now: u64,
) -> Option<PriceData> {
    let key = spec_price_key(asset_index, timestamp) as u128;
    if records.contains_key(key) {
        Some(
            PriceData {
                price: records[key],
                timestamp: if timestamp == 0 {
                    now
                } else {
                    timestamp
                },
            },
        )
    } else {
        None
    }
}

/// The time one price earlier.
pub open spec fn spec_earlier(timestamp: u64, resolution: u64) -> u64 {
    if timestamp >= resolution {
        (timestamp - resolution) as u64
    } else {
        0
    }
}

/// The prices of an asset from a time backwards, up to a number of them and up to
/// the first that is not set.
pub open spec fn spec_price_run(
    records: Map<u128, i128>,
    asset_index: u8,
    timestamp: u64,
    resolution: u64,
    count: nat,
    now: u64,
) -> Seq<PriceData>
    decreases count,
{
    if count == 0 {
        Seq::empty()
    } else {
        match spec_price_data(records, asset_index, timestamp, now) {
            None => Seq::empty(),
            Some(value) => seq![value] + spec_price_run(
                records,
                asset_index,
                spec_earlier(timestamp, resolution),
                resolution,
                (count - 1) as nat,
                now,
            ),
        }
    }
}

/// The records with a list of prices set for one time.
pub open spec fn spec_set_prices(
    records: Map<u128, i128>,
    prices: Seq<i128>,
    timestamp: u64,
) -> Map<u128, i128>
    decreases prices.len(),
{
    if prices.len() == 0 {
        records
    } else {
        spec_set_prices(records, prices.drop_last(), timestamp).insert(
            spec_price_key((prices.len() - 1) as u8, timestamp) as u128,
            prices.last(),
        )
    }
}

/// The positions with those of a list of assets; of an asset listed twice the last one counts.
pub open spec fn spec_set_indexes(indexes: Map<u64, u32>, assets: Seq<u64>) -> Map<u64, u32>
    decreases assets.len(),
{
    if assets.len() == 0 {
        indexes
    } else {
        spec_set_indexes(indexes, assets.drop_last()).insert(
            assets.last(),
            (assets.len() - 1) as u32,
        )
    }
}

impl MockPriceOracle {
    /// Set up the oracle with its base asset and the assets that it prices.
    pub fn set_data(&mut self, base: Address, assets: Vec<u64>, decimals: u32, resolution: u32)
        ensures
            final(self).assets@ == assets@,
            final(self).indexes@ == spec_set_indexes(old(self).indexes@, assets@),
            final(self).base == base,
            final(self).decimals == decimals,
            final(self).resolution == resolution,
            final(self).records@ == old(self).records@,
            final(self).last_timestamp == old(self).last_timestamp,
    {
        self.base = base;
        self.decimals = decimals;
        self.resolution = resolution;
        let mut index: usize = 0;
        while index < assets.len()
            invariant
                index <= assets@.len(),
                self.indexes@ == spec_set_indexes(
                    old(self).indexes@,
                    assets@.take(index as int),
                ),
                self.base == base,
                self.decimals == decimals,
                self.resolution == resolution,
                self.records@ == old(self).records@,
                self.last_timestamp == old(self).last_timestamp,
            decreases assets@.len() - index,
        {
            proof {
                let next = assets@.take(index + 1);
                assert(next.drop_last() =~= assets@.take(index as int));
                assert(next.last() == assets@[index as int]);
            }
            self.indexes.insert(assets[index], index as u32);
            index = index + 1;
        }
        assert(assets@.take(index as int) =~= assets@);
        self.assets = assets;
    }

    /// The position of an asset.
    pub fn asset_index(&self, asset: u64) -> (r: Result<u8, PriceOracleError>)
        ensures
            r == if self.indexes@.contains_key(asset) {
                Ok(self.indexes@[asset] as u8)
            } else {
                Err(PriceOracleError::AssetMissing)
            },
    {
        match self.indexes.get(&asset) {
            Some(index) => Ok(*index as u8),
            None => Err(PriceOracleError::AssetMissing),
        }
    }

    /// The price of an asset at a time.
    pub fn price(&self, asset: u64, timestamp: u64, now: u64) -> (r: Result<
        Option<PriceData>,
        PriceOracleError,
    >)
        ensures
            r == if self.indexes@.contains_key(asset) {
                Ok(
                    spec_price_data(
                        self.records@,
                        self.indexes@[asset] as u8,
                        timestamp,
                        now,
                    ),
                )
            } else {
                Err(PriceOracleError::AssetMissing)
            },
    {
        let index: u8 = self.asset_index(asset)?;
        Ok(self.price_data(index, timestamp, now))
    }

    fn price_data(&self, asset_index: u8, timestamp: u64, now: u64) -> (r: Option<PriceData>)
        ensures
            r == spec_price_data(self.records@, asset_index, timestamp, now),
    {
        let key: u128 = price_key(asset_index, timestamp);
        match self.records.get(&key) {
            None => None,
            Some(price) => Some(
                PriceData {
                    price: *price,
                    timestamp: if timestamp == 0 {
                        now
                    } else {
                        timestamp
                    },
                },
            ),
        }
    }

    /// The last price of an asset.
    pub fn lastprice(&self, asset: u64, now: u64) -> (r: Result<
        Option<PriceData>,
        PriceOracleError,
    >)
        ensures
            r == if self.indexes@.contains_key(asset) {
                Ok(
                    spec_price_data(
                        self.records@,
                        self.indexes@[asset] as u8,
                        self.last_timestamp,
                        now,
                    ),
                )
            } else {
                Err(PriceOracleError::AssetMissing)
            },
    {
        self.price(asset, self.last_timestamp, now)
    }

    /// The last prices of an asset, the newest first, up to 20 of them; none while
    /// prices hold at any time. An unknown asset is only looked up for at least one price.
    pub fn prices(&self, asset: u64, records: u32, now: u64) -> (r: Result<
        Option<Vec<PriceData>>,
        PriceOracleError,
    >)
        ensures
            ({
                let count = if records <= MAX_RECORDS {
                    records as nat
                } else {
                    MAX_RECORDS as nat
                };
                if self.last_timestamp == 0 || self.resolution == 0 || records == 0 {
                    r matches Ok(found) && found is None
                } else if !self.indexes@.contains_key(asset) {
                    r matches Err(error) && error == PriceOracleError::AssetMissing
                } else {
                    let run = spec_price_run(
                        self.records@,
                        self.indexes@[asset] as u8,
                        self.last_timestamp,
                        self.resolution as u64,
                        count,
                        now,
                    );
                    r matches Ok(found) && if run.len() == 0 {
                        found is None
                    } else {
                        found matches Some(prices) && prices@ == run
                    }
                }
            }),
    {
        let resolution: u64 = self.resolution as u64;
        let mut timestamp: u64 = self.last_timestamp;
        if timestamp == 0 || resolution == 0 || records == 0 {
            return Ok(None);
        }
        let index: u8 = self.asset_index(asset)?;
        let limit: u32 = if records <= MAX_RECORDS {
            records
        } else {
            MAX_RECORDS
        };
        let mut result: Vec<PriceData> = Vec::new();
        let mut taken: u32 = 0;
        let ghost run = spec_price_run(
            self.records@,
            index,
            self.last_timestamp,
            resolution,
            limit as nat,
            now,
        );
        let mut missing: bool = false;
        assert(run =~= result@ + run);
        while taken < limit && !missing
            invariant
                taken <= limit,
                self.indexes@.contains_key(asset),
                index == self.indexes@[asset] as u8,
                !missing ==> run == result@ + spec_price_run(
                    self.records@,
                    index,
                    timestamp,
                    resolution,
                    (limit - taken) as nat,
                    now,
                ),
                missing ==> run == result@,
            decreases limit - taken, if missing { 0int } else { 1int },
        {
            match self.price_data(index, timestamp, now) {
                None => {
                    missing = true;
                    assert(run =~= result@);
                },
                Some(value) => {
                    let ghost before = result@;
                    result.push(value);
                    timestamp = if timestamp >= resolution {
                        timestamp - resolution
                    } else {
                        0
                    };
                    taken = taken + 1;
                    assert(run =~= result@ + spec_price_run(
                        self.records@,
                        index,
                        timestamp,
                        resolution,
                        (limit - taken) as nat,
                        now,
                    ));
                },
            }
        }
        assert(run =~= result@);
        if result.len() == 0 {
            Ok(None)
        } else {
            Ok(Some(result))
        }
    }

    /// Set the prices of all assets for a time.
    pub fn set_price(&mut self, prices: &Vec<i128>, timestamp: u64)
        ensures
            final(self).records@ == spec_set_prices(old(self).records@, prices@, timestamp),
            final(self).last_timestamp == timestamp,
            final(self).assets@ == old(self).assets@,
            final(self).indexes@ == old(self).indexes@,
            final(self).base == old(self).base,
            final(self).decimals == old(self).decimals,
            final(self).resolution == old(self).resolution,
    {
        self.last_timestamp = timestamp;
        let mut index: usize = 0;
        while index < prices.len()
            invariant
                index <= prices@.len(),
                self.records@ == spec_set_prices(
                    old(self).records@,
                    prices@.take(index as int),
                    timestamp,
                ),
                self.last_timestamp == timestamp,
                self.assets@ == old(self).assets@,
                self.indexes@ == old(self).indexes@,
                self.base == old(self).base,
                self.decimals == old(self).decimals,
                self.resolution == old(self).resolution,
            decreases prices@.len() - index,
        {
            proof {
                let next = prices@.take(index + 1);
                assert(next.drop_last() =~= prices@.take(index as int));
                assert(next.last() == prices@[index as int]);
            }
            let key: u128 = price_key(index as u8, timestamp);
            self.records.insert(key, prices[index]);
            index = index + 1;
        }
        assert(prices@.take(index as int) =~= prices@);
    }

    /// Set prices of all assets that hold at any time.
    pub fn set_price_stable(&mut self, prices: &Vec<i128>)
        ensures
            final(self).records@ == spec_set_prices(old(self).records@, prices@, 0),
            final(self).last_timestamp == 0,
            final(self).assets@ == old(self).assets@,
            final(self).indexes@ == old(self).indexes@,
            final(self).base == old(self).base,
            final(self).decimals == old(self).decimals,
            final(self).resolution == old(self).resolution,
    {
        self.set_price(prices, 0)
    }
}

/// The price of an asset that was just set is its last price, and its price at that time.
pub proof fn law_set_prices_are_read_back(
    records: Map<u128, i128>,
    prices: Seq<i128>,
    timestamp: u64,
    index: u8,
    now: u64,
)
    requires
        index < prices.len() <= 256,
    ensures
        spec_price_data(spec_set_prices(records, prices, timestamp), index, timestamp, now) == Some(
            PriceData {
                price: prices[index as int],
                timestamp: if timestamp == 0 {
                    now
                } else {
                    timestamp
                },
            },
        ),
    decreases prices.len(),
{
    let init = prices.drop_last();
    let last = (prices.len() - 1) as u8;
    if index < last {
        law_set_prices_are_read_back(records, init, timestamp, index, now);
        assert(init[index as int] == prices[index as int]);
        assert(spec_price_key(index, timestamp) as u128 != spec_price_key(last, timestamp) as u128);
    }
}

} // verus!
