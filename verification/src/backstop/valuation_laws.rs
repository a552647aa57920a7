//! What the tiers of a pool are worth.

use vstd::prelude::*;

use super::pool::{
    has_tokens, law_activation_total_is_the_sum, law_q4w_fraction_is_a_fraction, needs_anchor,
    needs_target, spec_partition, spec_partitions, spec_pool_tier_valuation, spec_pool_valuation,
    spec_price_source, spec_q4w_fraction, spec_q4w_percentage, spec_quote_configured_tier,
    spec_quote_pool_lp_amounts, spec_read_comet, spec_tier_data, spec_tier_value, value_sum,
    BackstopAssets, CometComposition, CometReading, PoolBalance, PoolTierValuation, PriceSource,
    TierAmounts,
};
use super::share_laws::{law_shares_redeem_what_stands_behind_them, stands_behind};
use crate::dependencies::pool_factory::{BackstopAsset as FactoryBackstopAsset, BackstopTierConfig};
use crate::errors::BackstopError;
use crate::math::{
    fits_i128, is_ceil_of, is_floor_of, lemma_ceil, lemma_floor, lemma_floor_is_unique,
    lemma_quotient_bounds, sum_of,
};
use crate::results::lemma_collected_ok;

verus! {

/// Whether a Comet pool can be read: it has a supply, both reserves, and the weights of an
/// 80 to 20 pool.
pub open spec fn readable(reading: CometReading) -> bool {
    &&& reading.total_supply > 0
    &&& reading.blnd_reserve > 0
    &&& reading.pair_reserve > 0
    &&& reading.blnd_weight == 8_000_000
    &&& reading.pair_weight == 2_000_000
}

/// A Comet pool is read as it reports itself, and only where it can be.
pub proof fn law_comets_are_read_as_they_are(reading: CometReading)
    ensures
        spec_read_comet(reading) is Ok <==> readable(reading),
        spec_read_comet(reading) matches Ok(composition) ==> {
            &&& composition.total_supply == reading.total_supply
            &&& composition.blnd_reserve == reading.blnd_reserve
            &&& composition.pair_reserve == reading.pair_reserve
        },
{
}

/// Whether the values of a tier are the parts, each rounded down, that its amounts have of
/// a whole.
pub open spec fn has_parts_of(
    values: PoolTierValuation,
    amounts: TierAmounts,
    whole: int,
    supply: int,
) -> bool {
    &&& is_floor_of(values.active.usdc_value as int, amounts.0 * whole, supply)
    &&& is_floor_of(values.queued.usdc_value as int, amounts.1 * whole, supply)
    &&& is_floor_of(values.total.usdc_value as int, amounts.2 * whole, supply)
}

/// Whether the values of a tier are its amounts.
pub open spec fn has_amounts(values: PoolTierValuation, amounts: TierAmounts) -> bool {
    &&& values.active.usdc_value == amounts.0
    &&& values.queued.usdc_value == amounts.1
    &&& values.total.usdc_value == amounts.2
}

/// Whether this is what the BLND:XLM Comet pool is worth: its BLND, at the price that the
/// BLND:USDC pool gives BLND, where all of that pool is worth five times its USDC.
pub open spec fn is_worth(
    value: int,
    anchor: CometComposition,
    target: CometComposition,
) -> bool {
    &&& value > 0
    &&& is_floor_of(
        value,
        target.blnd_reserve * (5 * anchor.pair_reserve),
        anchor.blnd_reserve as int,
    )
}

/// Whether a tier is priced by the reserves of its asset.
pub open spec fn is_priced(
    asset: FactoryBackstopAsset,
    values: PoolTierValuation,
    amounts: TierAmounts,
    anchor: Option<CometComposition>,
    target: Option<CometComposition>,
) -> bool {
    match asset {
        FactoryBackstopAsset::Usdc => has_amounts(values, amounts),
        FactoryBackstopAsset::BlndUsdc => {
            &&& anchor matches Some(a) && amounts.2 <= a.total_supply && has_parts_of(
                values,
                amounts,
                5 * a.pair_reserve,
                a.total_supply as int,
            )
        },
        FactoryBackstopAsset::BlndXlm => {
            &&& anchor matches Some(a) && target matches Some(t) && amounts.2 <= t.total_supply
                && exists|worth: int| #[trigger]
                is_worth(worth, a, t) && has_parts_of(
                    values,
                    amounts,
                    worth,
                    t.total_supply as int,
                )
        },
        FactoryBackstopAsset::Xlm => {
            &&& anchor matches Some(a) && target matches Some(t) && has_parts_of(
                values,
                amounts,
                a.pair_reserve * t.blnd_reserve,
                a.blnd_reserve * t.pair_reserve,
            )
        },
    }
}

/// Prices whose BLND:USDC pool is worth five times its USDC.
pub open spec fn anchored(prices: PriceSource) -> bool {
    &&& prices.well_formed()
    &&& prices.anchor matches Some(anchor) ==> prices.anchor_value matches Some(value) && value
        == 5 * anchor.pair_reserve
}

proof fn lemma_parts(amounts: TierAmounts, whole: int, composition: CometComposition)
    requires
        composition.well_formed(),
    ensures
        spec_pool_tier_valuation(amounts, whole, composition) matches Ok(values) ==> {
            &&& whole > 0
            &&& amounts.2 <= composition.total_supply
            &&& has_parts_of(values, amounts, whole, composition.total_supply as int)
        },
        whole > 0 && whole <= i128::MAX && 0 <= amounts.0 <= amounts.2 && 0 <= amounts.1
            <= amounts.2 && amounts.2 <= composition.total_supply ==> spec_pool_tier_valuation(
            amounts,
            whole,
            composition,
        ) is Ok,
{
    let supply = composition.total_supply as int;
    lemma_floor(amounts.0 * whole, supply);
    lemma_floor(amounts.1 * whole, supply);
    lemma_floor(amounts.2 * whole, supply);
    if whole > 0 && whole <= i128::MAX && 0 <= amounts.0 <= amounts.2 && 0 <= amounts.1
        <= amounts.2 && amounts.2 <= supply {
        lemma_part_fits(amounts.0 as int, whole, supply);
        lemma_part_fits(amounts.1 as int, whole, supply);
        lemma_part_fits(amounts.2 as int, whole, supply);
    }
}

pub(crate) proof fn lemma_part_fits(amount: int, whole: int, supply: int)
    requires
        0 <= amount <= supply,
        supply > 0,
        0 < whole <= i128::MAX,
    ensures
        0 <= amount * whole / supply <= whole,
{
    lemma_floor(amount * whole, supply);
    let q = amount * whole / supply;
    assert(0 <= amount * whole <= supply * whole) by (nonlinear_arith)
        requires
            0 <= amount <= supply,
            whole > 0,
    ;
    assert(0 <= q <= whole) by (nonlinear_arith)
        requires
            q * supply <= amount * whole < q * supply + supply,
            0 <= amount * whole <= supply * whole,
            supply > 0,
    ;
}

/// A tier is priced by the reserves of its own asset: USDC one to one, LP tokens by their
/// part of their Comet pool, and XLM by what its pool and the BLND:USDC pool give for BLND.
/// An empty tier needs no price.
pub proof fn law_tiers_are_priced_by_their_own_reserves(
    config: BackstopTierConfig,
    amounts: TierAmounts,
    prices: PriceSource,
)
    requires
        anchored(prices),
    ensures
        spec_quote_configured_tier(config, amounts, prices) matches Ok(values) ==> {
            &&& 0 <= amounts.0 && 0 <= amounts.1 && 0 <= amounts.2
            &&& amounts.2 == 0 ==> has_amounts(values, amounts)
            &&& amounts.2 > 0 ==> is_priced(
                config.asset,
                values,
                amounts,
                prices.anchor,
                prices.target,
            )
        },
{
    if let Ok(values) = spec_quote_configured_tier(config, amounts, prices) {
        if amounts.2 > 0 {
            match config.asset {
                FactoryBackstopAsset::BlndUsdc => {
                    let a = prices.anchor->Some_0;
                    lemma_parts(amounts, 5 * a.pair_reserve, a);
                },
                FactoryBackstopAsset::BlndXlm => {
                    let a = prices.anchor->Some_0;
                    let t = prices.target->Some_0;
                    let product = t.blnd_reserve * (5 * a.pair_reserve);
                    lemma_floor(product, a.blnd_reserve as int);
                    let worth = product / a.blnd_reserve as int;
                    lemma_parts(amounts, worth, t);
                    assert(is_worth(worth, a, t));
                },
                FactoryBackstopAsset::Usdc => {},
                FactoryBackstopAsset::Xlm => {
                    let a = prices.anchor->Some_0;
                    let t = prices.target->Some_0;
                    lemma_xlm_value(amounts.0 as int, a, t);
                    lemma_xlm_value(amounts.1 as int, a, t);
                    lemma_xlm_value(amounts.2 as int, a, t);
                },
            }
        }
    }
}

proof fn lemma_xlm_value(amount: int, a: CometComposition, t: CometComposition)
    requires
        a.well_formed(),
        t.well_formed(),
    ensures
        is_floor_of(
            (amount * a.pair_reserve * t.blnd_reserve) / (a.blnd_reserve * t.pair_reserve),
            amount * (a.pair_reserve * t.blnd_reserve),
            a.blnd_reserve * t.pair_reserve,
        ),
{
    let (p, b) = (a.pair_reserve, t.blnd_reserve);
    assert(amount * p * b == amount * (p * b)) by (nonlinear_arith);
    assert(a.blnd_reserve * t.pair_reserve > 0) by (nonlinear_arith)
        requires
            a.blnd_reserve > 0,
            t.pair_reserve > 0,
    ;
    lemma_floor(amount * p * b, a.blnd_reserve * t.pair_reserve);
}

/// What a BLND:XLM tier is worth does not depend on the XLM in its Comet pool: two readings
/// that differ in nothing else give the same values.
pub proof fn law_xlm_reserves_do_not_price_lp_tokens(
    config: BackstopTierConfig,
    amounts: TierAmounts,
    prices: PriceSource,
    other: PriceSource,
)
    requires
        config.asset == FactoryBackstopAsset::BlndXlm,
        prices.anchor == other.anchor,
        prices.anchor_value == other.anchor_value,
        prices.target matches Some(t) && other.target matches Some(u) && t.blnd_reserve
            == u.blnd_reserve && t.total_supply == u.total_supply,
    ensures
        spec_quote_configured_tier(config, amounts, prices) == spec_quote_configured_tier(
            config,
            amounts,
            other,
        ),
{
}

/// More BLND in the BLND:XLM pool, or more USDC in the BLND:USDC pool, prices a BLND:XLM
/// tier no lower.
pub proof fn law_more_reserves_are_worth_no_less(
    config: BackstopTierConfig,
    amounts: TierAmounts,
    prices: PriceSource,
    other: PriceSource,
)
    requires
        config.asset == FactoryBackstopAsset::BlndXlm,
        anchored(prices),
        anchored(other),
        amounts.2 > 0,
        prices.anchor matches Some(a) && other.anchor matches Some(b) && a.blnd_reserve
            == b.blnd_reserve && a.pair_reserve <= b.pair_reserve,
        prices.target matches Some(t) && other.target matches Some(u) && t.total_supply
            == u.total_supply && t.blnd_reserve <= u.blnd_reserve,
    ensures
        spec_quote_configured_tier(config, amounts, prices) matches Ok(low) ==> (
        spec_quote_configured_tier(config, amounts, other) matches Ok(high) ==> {
            &&& low.active.usdc_value <= high.active.usdc_value
            &&& low.queued.usdc_value <= high.queued.usdc_value
            &&& low.total.usdc_value <= high.total.usdc_value
        }),
{
    if spec_quote_configured_tier(config, amounts, prices) is Ok && spec_quote_configured_tier(
        config,
        amounts,
        other,
    ) is Ok {
        let (a, b) = (prices.anchor->Some_0, other.anchor->Some_0);
        let (t, u) = (prices.target->Some_0, other.target->Some_0);
        let less = t.blnd_reserve * (5 * a.pair_reserve);
        let more = u.blnd_reserve * (5 * b.pair_reserve);
        assert(less <= more) by (nonlinear_arith)
            requires
                less == t.blnd_reserve * (5 * a.pair_reserve),
                more == u.blnd_reserve * (5 * b.pair_reserve),
                0 < t.blnd_reserve <= u.blnd_reserve,
                0 < a.pair_reserve <= b.pair_reserve,
        ;
        let d = a.blnd_reserve as int;
        vstd::arithmetic::div_mod::lemma_div_is_ordered(less, more, d);
        let (low, high) = (less / d, more / d);
        let supply = t.total_supply as int;
        lemma_part_grows(amounts.0 as int, low, high, supply);
        lemma_part_grows(amounts.1 as int, low, high, supply);
        lemma_part_grows(amounts.2 as int, low, high, supply);
    }
}

proof fn lemma_part_grows(amount: int, low: int, high: int, supply: int)
    requires
        amount >= 0,
        low <= high,
        supply > 0,
    ensures
        amount * low / supply <= amount * high / supply,
{
    assert(amount * low <= amount * high) by (nonlinear_arith)
        requires
            amount >= 0,
            low <= high,
    ;
    vstd::arithmetic::div_mod::lemma_div_is_ordered(amount * low, amount * high, supply);
}

/// A tier is priced wherever the Comet pools that price its asset are known, no more of
/// its LP tokens are held than exist, and its worth has room.
pub proof fn law_tiers_are_priced(
    config: BackstopTierConfig,
    amounts: TierAmounts,
    prices: PriceSource,
    worth: int,
)
    requires
        anchored(prices),
        0 <= amounts.0 <= amounts.2,
        0 <= amounts.1 <= amounts.2,
        amounts.2 > 0 ==> match config.asset {
            FactoryBackstopAsset::Usdc => true,
            FactoryBackstopAsset::BlndUsdc => prices.anchor matches Some(a) && amounts.2
                <= a.total_supply,
            FactoryBackstopAsset::BlndXlm => prices.anchor matches Some(a)
                && prices.target matches Some(t) && amounts.2 <= t.total_supply && is_worth(
                worth,
                a,
                t,
            ) && worth <= i128::MAX,
            FactoryBackstopAsset::Xlm => prices.anchor matches Some(a)
                && prices.target matches Some(t) && amounts.2 * (a.pair_reserve * t.blnd_reserve)
                <= i128::MAX,
        },
    ensures
        spec_quote_configured_tier(config, amounts, prices) is Ok,
{
    if amounts.2 > 0 {
        match config.asset {
            FactoryBackstopAsset::BlndUsdc => {
                let a = prices.anchor->Some_0;
                lemma_parts(amounts, 5 * a.pair_reserve, a);
            },
            FactoryBackstopAsset::BlndXlm => {
                let a = prices.anchor->Some_0;
                let t = prices.target->Some_0;
                lemma_floor_is_unique(
                    worth,
                    t.blnd_reserve * (5 * a.pair_reserve),
                    a.blnd_reserve as int,
                );
                lemma_parts(amounts, worth, t);
            },
            FactoryBackstopAsset::Usdc => {},
            FactoryBackstopAsset::Xlm => {
                let a = prices.anchor->Some_0;
                let t = prices.target->Some_0;
                lemma_xlm_fits(amounts.0 as int, amounts.2 as int, a, t);
                lemma_xlm_fits(amounts.1 as int, amounts.2 as int, a, t);
                lemma_xlm_fits(amounts.2 as int, amounts.2 as int, a, t);
            },
        }
    }
}

proof fn lemma_xlm_fits(amount: int, most: int, a: CometComposition, t: CometComposition)
    requires
        a.well_formed(),
        t.well_formed(),
        0 <= amount <= most,
        most * (a.pair_reserve * t.blnd_reserve) <= i128::MAX,
    ensures
        fits_i128((amount * a.pair_reserve * t.blnd_reserve) / (a.blnd_reserve * t.pair_reserve)),
{
    let (p, b) = (a.pair_reserve as int, t.blnd_reserve as int);
    let d = a.blnd_reserve * t.pair_reserve;
    assert(d > 0) by (nonlinear_arith)
        requires
            a.blnd_reserve > 0,
            t.pair_reserve > 0,
            d == a.blnd_reserve * t.pair_reserve,
    ;
    assert(0 <= amount * p * b <= most * (p * b)) by (nonlinear_arith)
        requires
            0 <= amount <= most,
            p > 0,
            b > 0,
    ;
    lemma_quotient_bounds(amount * p * b, d);
}

/// The BLND:USDC pool is read where any tier needs it, the BLND:XLM pool where a tier
/// needs that too, each as it reports itself. The BLND:USDC pool is worth five times its
/// USDC.
pub proof fn law_prices_come_from_the_comets(
    needs_anchor: bool,
    needs_target: bool,
    anchor: Option<CometReading>,
    target: Option<CometReading>,
)
    ensures
        spec_price_source(needs_anchor, needs_target, anchor, target) is Ok <==> {
            &&& needs_anchor ==> (anchor matches Some(a) && readable(a) && 5 * a.pair_reserve
                <= i128::MAX)
            &&& needs_target ==> (target matches Some(t) && readable(t))
        },
        spec_price_source(needs_anchor, needs_target, anchor, target) matches Ok(prices) ==> {
            &&& anchored(prices)
            &&& prices.anchor is Some <==> needs_anchor
            &&& prices.target is Some <==> needs_target
            &&& prices.anchor matches Some(read) ==> {
                &&& read.total_supply == anchor->Some_0.total_supply
                &&& read.blnd_reserve == anchor->Some_0.blnd_reserve
                &&& read.pair_reserve == anchor->Some_0.pair_reserve
            }
            &&& prices.target matches Some(read) ==> {
                &&& read.total_supply == target->Some_0.total_supply
                &&& read.blnd_reserve == target->Some_0.blnd_reserve
                &&& read.pair_reserve == target->Some_0.pair_reserve
            }
        },
{
}

/// A tier is parted into the tokens behind its shares that are not queued, those behind its
/// queued shares, and all of them.
pub proof fn law_tiers_are_parted_by_their_queue(balance: PoolBalance)
    ensures
        spec_partition(balance) is Ok <==> 0 <= balance.q4w <= balance.shares && 0
            <= balance.tokens,
        spec_partition(balance) matches Ok(amounts) ==> {
            &&& stands_behind(balance, balance.shares - balance.q4w, amounts.0 as int)
            &&& stands_behind(balance, balance.q4w as int, amounts.1 as int)
            &&& amounts.2 == balance.tokens
            &&& 0 <= amounts.0 <= balance.tokens
            &&& 0 <= amounts.1 <= balance.tokens
        },
{
    if balance.well_formed() {
        law_shares_redeem_what_stands_behind_them(balance, balance.shares - balance.q4w);
        law_shares_redeem_what_stands_behind_them(balance, balance.q4w as int);
    }
}

/// The reserves that a Comet pool reports.
pub open spec fn reported(reading: Option<CometReading>) -> Option<CometComposition> {
    match reading {
        Some(r) => Some(
            CometComposition {
                blnd_reserve: r.blnd_reserve,
                pair_reserve: r.pair_reserve,
                total_supply: r.total_supply,
            },
        ),
        None => None,
    }
}

/// A pool is worth, tier by tier, what the Comet pools' reports give for the tokens behind
/// its active, its queued and all its shares. An empty tier is worth nothing, and neither
/// is USDC that may not be transferred.
pub proof fn law_pools_are_valued_tier_by_tier(
    config: Seq<BackstopTierConfig>,
    balances: Seq<PoolBalance>,
    anchor: Option<CometReading>,
    target: Option<CometReading>,
    usdc_authorized: bool,
)
    requires
        balances.len() == config.len(),
    ensures
        spec_pool_valuation(config, balances, anchor, target, usdc_authorized) matches Ok(tiers)
            ==> {
            &&& tiers.len() == config.len()
            &&& forall|i: int|
                0 <= i < config.len() ==> is_valued(
                    config[i],
                    balances[i],
                    #[trigger] tiers[i],
                    anchor,
                    target,
                    usdc_authorized,
                )
        },
{
    if let Ok(tiers) = spec_pool_valuation(config, balances, anchor, target, usdc_authorized) {
        let n = config.len() as int;
        let parts = balances.map_values(|b: PoolBalance| spec_partition(b));
        let amounts = spec_partitions(balances)->Ok_0;
        lemma_collected_ok(parts);
        assert forall|i: int| 0 <= i < n implies spec_partition(balances[i]) == Ok::<
            TierAmounts,
            BackstopError,
        >(#[trigger] amounts[i]) by {
            assert(parts[i] == spec_partition(balances[i]));
        }
        if has_tokens(amounts, n) {
            let prices = spec_price_source(
                needs_anchor(config, amounts, n),
                needs_target(config, amounts, n),
                anchor,
                target,
            )->Ok_0;
            law_prices_come_from_the_comets(
                needs_anchor(config, amounts, n),
                needs_target(config, amounts, n),
                anchor,
                target,
            );
            let values = Seq::new(
                config.len(),
                |i: int| spec_tier_value(config[i], amounts[i], prices, usdc_authorized),
            );
            lemma_collected_ok(values);
            assert forall|i: int| 0 <= i < n implies is_valued(
                config[i],
                balances[i],
                #[trigger] tiers[i],
                anchor,
                target,
                usdc_authorized,
            ) by {
                law_tiers_are_parted_by_their_queue(balances[i]);
                assert(values[i] == spec_tier_value(
                    config[i],
                    amounts[i],
                    prices,
                    usdc_authorized,
                ));
                law_tiers_are_priced_by_their_own_reserves(config[i], amounts[i], prices);
                assert(prices.anchor is Some ==> prices.anchor == reported(anchor));
                assert(prices.target is Some ==> prices.target == reported(target));
            }
        } else {
            assert forall|i: int| 0 <= i < n implies is_valued(
                config[i],
                balances[i],
                #[trigger] tiers[i],
                anchor,
                target,
                usdc_authorized,
            ) by {
                law_tiers_are_parted_by_their_queue(balances[i]);
                assert(amounts[i].2 <= 0);
            }
        }
    }
}

/// Whether a tier's values are what it is worth.
pub open spec fn is_valued(
    config: BackstopTierConfig,
    balance: PoolBalance,
    values: PoolTierValuation,
    anchor: Option<CometReading>,
    target: Option<CometReading>,
    usdc_authorized: bool,
) -> bool {
    let amounts = spec_partition(balance)->Ok_0;
    &&& spec_partition(balance) is Ok
    &&& if balance.tokens == 0 || (config.asset == FactoryBackstopAsset::Usdc
        && !usdc_authorized) {
        has_amounts(values, (0, 0, 0))
    } else {
        is_priced(config.asset, values, amounts, reported(anchor), reported(target))
    }
}

/// LP tokens are quoted by their part of their own Comet pool.
pub proof fn law_lp_amounts_are_quoted_by_their_comets(
    blnd_usdc: TierAmounts,
    blnd_xlm: TierAmounts,
    anchor: CometReading,
    target: CometReading,
)
    ensures
        spec_quote_pool_lp_amounts(blnd_usdc, blnd_xlm, anchor, target) matches Ok(
            (first, second),
        ) ==> {
            &&& readable(anchor)
            &&& readable(target)
            &&& is_priced(
                FactoryBackstopAsset::BlndUsdc,
                first,
                blnd_usdc,
                reported(Some(anchor)),
                reported(Some(target)),
            )
            &&& is_priced(
                FactoryBackstopAsset::BlndXlm,
                second,
                blnd_xlm,
                reported(Some(anchor)),
                reported(Some(target)),
            )
        },
{
    if let Ok((first, second)) = spec_quote_pool_lp_amounts(blnd_usdc, blnd_xlm, anchor, target) {
        let a = spec_read_comet(anchor)->Ok_0;
        let t = spec_read_comet(target)->Ok_0;
        lemma_parts(blnd_usdc, 5 * a.pair_reserve, a);
        let product = t.blnd_reserve * (5 * a.pair_reserve);
        lemma_floor(product, a.blnd_reserve as int);
        let worth = product / a.blnd_reserve as int;
        lemma_parts(blnd_xlm, worth, t);
        assert(is_worth(worth, a, t));
    }
}

/// The queued fraction of a pool is its queued value in all of its value, with seven
/// decimals, rounded up.
pub proof fn law_the_queued_fraction_is_rounded_up(active: int, queued: int)
    requires
        active >= 0,
        queued >= 0,
        active + queued > 0,
    ensures
        is_ceil_of(spec_q4w_fraction(active, queued), queued * 10_000_000, active + queued),
{
    lemma_ceil(queued * 10_000_000, active + queued);
}

/// Whether the tokens of a tier can be priced: the Comet pools that price its asset can be
/// read, no more of its LP tokens are held than exist, and its worth has room.
pub open spec fn can_be_priced(
    asset: FactoryBackstopAsset,
    tokens: i128,
    anchor: Option<CometReading>,
    target: Option<CometReading>,
    worth: int,
) -> bool {
    let a = reported(anchor)->Some_0;
    let t = reported(target)->Some_0;
    &&& asset != FactoryBackstopAsset::Usdc ==> anchor is Some && readable(anchor->Some_0) && 5
        * a.pair_reserve <= i128::MAX
    &&& asset == FactoryBackstopAsset::BlndXlm || asset == FactoryBackstopAsset::Xlm
        ==> target is Some && readable(target->Some_0)
    &&& asset == FactoryBackstopAsset::BlndUsdc ==> tokens <= a.total_supply
    &&& asset == FactoryBackstopAsset::BlndXlm ==> tokens <= t.total_supply && is_worth(
        worth,
        a,
        t,
    ) && worth <= i128::MAX
    &&& asset == FactoryBackstopAsset::Xlm ==> tokens * (a.pair_reserve * t.blnd_reserve)
        <= i128::MAX
}

/// A pool is valued wherever its tiers are in order and each that holds tokens can be
/// priced. No Comet pool has to be read that no such tier needs.
pub proof fn law_pools_are_valued(
    config: Seq<BackstopTierConfig>,
    balances: Seq<PoolBalance>,
    anchor: Option<CometReading>,
    target: Option<CometReading>,
    usdc_authorized: bool,
    worth: int,
)
    requires
        balances.len() == config.len(),
        forall|i: int| 0 <= i < balances.len() ==> (#[trigger] balances[i]).well_formed(),
        forall|i: int|
            0 <= i < config.len() && balances[i].tokens > 0 ==> can_be_priced(
                (#[trigger] config[i]).asset,
                balances[i].tokens,
                anchor,
                target,
                worth,
            ),
    ensures
        spec_pool_valuation(config, balances, anchor, target, usdc_authorized) is Ok,
{
    let n = config.len() as int;
    let parts = balances.map_values(|b: PoolBalance| spec_partition(b));
    lemma_collected_ok(parts);
    assert forall|i: int| 0 <= i < parts.len() implies (#[trigger] parts[i]) is Ok by {
        assert(balances[i].well_formed());
    }
    let amounts = spec_partitions(balances)->Ok_0;
    assert forall|i: int| 0 <= i < n implies spec_partition(balances[i]) == Ok::<
        TierAmounts,
        BackstopError,
    >(#[trigger] amounts[i]) by {
        assert(parts[i] == spec_partition(balances[i]));
    }
    if has_tokens(amounts, n) {
        let needs_a = needs_anchor(config, amounts, n);
        let needs_t = needs_target(config, amounts, n);
        if needs_a {
            let i = choose|i: int|
                0 <= i < n && #[trigger] amounts[i].2 > 0 && config[i].asset
                    != FactoryBackstopAsset::Usdc;
            assert(spec_partition(balances[i])->Ok_0 == amounts[i]);
            assert(can_be_priced(config[i].asset, balances[i].tokens, anchor, target, worth));
        }
        if needs_t {
            let i = choose|i: int|
                0 <= i < n && #[trigger] amounts[i].2 > 0 && (config[i].asset
                    == FactoryBackstopAsset::BlndXlm || config[i].asset
                    == FactoryBackstopAsset::Xlm);
            assert(spec_partition(balances[i])->Ok_0 == amounts[i]);
            assert(can_be_priced(config[i].asset, balances[i].tokens, anchor, target, worth));
        }
        law_prices_come_from_the_comets(needs_a, needs_t, anchor, target);
        let prices = spec_price_source(needs_a, needs_t, anchor, target)->Ok_0;
        let values = Seq::new(
            config.len(),
            |i: int| spec_tier_value(config[i], amounts[i], prices, usdc_authorized),
        );
        lemma_collected_ok(values);
        assert forall|i: int| 0 <= i < values.len() implies (#[trigger] values[i]) is Ok by {
            law_tiers_are_parted_by_their_queue(balances[i]);
            assert(spec_partition(balances[i])->Ok_0 == amounts[i]);
            if amounts[i].2 > 0 {
                assert(can_be_priced(config[i].asset, balances[i].tokens, anchor, target, worth));
                assert(prices.anchor is Some ==> prices.anchor == reported(anchor));
                assert(prices.target is Some ==> prices.target == reported(target));
            }
            law_tiers_are_priced(config[i], amounts[i], prices, worth);
        }
    }
}

/// A list of amounts as integers.
pub open spec fn as_ints(values: Seq<i128>) -> Seq<int> {
    values.map_values(|value: i128| value as int)
}

/// The worth of all tiers is the sum of their worth.
pub proof fn law_values_are_summed(values: Seq<i128>)
    ensures
        value_sum(values) == sum_of(as_ints(values)),
    decreases values.len(),
{
    if values.len() > 0 {
        law_values_are_summed(values.drop_last());
        assert(as_ints(values).drop_last() =~= as_ints(values.drop_last()));
    }
}

/// The queued fraction is that of the sums over all tiers.
pub proof fn law_queued_fractions_are_of_all_tiers(active: Seq<i128>, queued: Seq<i128>)
    ensures
        ({
            let a = sum_of(as_ints(active));
            let q = sum_of(as_ints(queued));
            let r = spec_q4w_percentage(active, queued);
            &&& r is Ok <==> (forall|i: int| 0 <= i < active.len() ==> #[trigger] active[i] >= 0)
                && (forall|i: int| 0 <= i < queued.len() ==> #[trigger] queued[i] >= 0) && a + q
                <= i128::MAX
            &&& r is Ok && a + q > 0 ==> is_ceil_of(r->Ok_0 as int, q * 10_000_000, a + q)
            &&& r is Ok && a + q == 0 ==> r->Ok_0 == 0
        }),
{
    let a = sum_of(as_ints(active));
    let q = sum_of(as_ints(queued));
    law_values_are_summed(active);
    law_values_are_summed(queued);
    law_activation_total_is_the_sum(active);
    law_activation_total_is_the_sum(queued);
    lemma_sum_is_not_negative(active);
    lemma_sum_is_not_negative(queued);
    if spec_q4w_percentage(active, queued) is Ok && a + q > 0 {
        law_the_queued_fraction_is_rounded_up(a, q);
        law_q4w_fraction_is_a_fraction(a, q);
    }
}

proof fn lemma_sum_is_not_negative(values: Seq<i128>)
    ensures
        (forall|i: int| 0 <= i < values.len() ==> #[trigger] values[i] >= 0) ==> sum_of(
            as_ints(values),
        ) >= 0,
    decreases values.len(),
{
    if values.len() > 0 && forall|i: int| 0 <= i < values.len() ==> #[trigger] values[i] >= 0 {
        let init = values.drop_last();
        assert(forall|i: int| 0 <= i < init.len() ==> #[trigger] init[i] == values[i]);
        lemma_sum_is_not_negative(init);
        assert(as_ints(values).drop_last() =~= as_ints(init));
        assert(values[values.len() - 1] >= 0);
    }
}

/// A tier's data holds its asset and token, whether it earns emissions, its weight, what it
/// holds and has issued, and what it is worth.
pub proof fn law_tier_data_is_that_of_the_tier(
    assets: BackstopAssets,
    config: BackstopTierConfig,
    balance: PoolBalance,
    value: i128,
)
    ensures
        ({
            let data = spec_tier_data(assets, config, balance, value);
            &&& data.tokens == balance.tokens
            &&& data.shares == balance.shares
            &&& data.value == value
            &&& data.take_rate_weight == config.take_rate_weight
            &&& data.token == match config.asset {
                FactoryBackstopAsset::BlndUsdc => assets.blnd_usdc,
                FactoryBackstopAsset::BlndXlm => assets.blnd_xlm,
                FactoryBackstopAsset::Usdc => assets.usdc,
                FactoryBackstopAsset::Xlm => assets.xlm,
            }
            &&& data.blnd_emission_eligible <==> config.asset == FactoryBackstopAsset::BlndUsdc
                || config.asset == FactoryBackstopAsset::BlndXlm
        }),
{
}

} // verus!
