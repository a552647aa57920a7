//! What LP tokens are quoted at, in USDC and in the BLND behind them.

use vstd::prelude::*;

use super::pool::{
    law_q4w_fraction_is_a_fraction, spec_partition, spec_read_comet, CometComposition,
    CometReading, TierAmounts,
};
use super::valuation::{
    spec_activation_total, spec_pool_data, spec_pool_tier_valuation, spec_pool_valuation,
    spec_q4w_percentage, spec_quote_from_composition, spec_quote_pool_lp_amounts,
    spec_target_quotes, ActivationValues, AssetValuation, PoolTierValuation, TierBalances,
};
use super::valuation_laws::{
    is_worth, law_the_queued_fraction_is_rounded_up, law_tiers_are_parted_by_their_queue,
    lemma_part_fits, readable, reported,
};
use crate::backstop_valuation::{spec_quote, spec_quote_amount, AdapterConfig};
use crate::dependencies::backstop_valuation::AssetValuation as AdapterQuote;
use crate::errors::BackstopError;
use crate::math::{is_ceil_of, is_floor_of, lemma_floor, lemma_floor_is_unique};
use crate::Address;

verus! {

/// Whether an amount of LP tokens is quoted by its part, rounded down, of what the Comet
/// pool is worth and of the BLND in it.
pub open spec fn is_quoted(
    quote: AssetValuation,
    amount: i128,
    worth: int,
    comet: CometComposition,
) -> bool {
    &&& is_floor_of(quote.usdc_value as int, amount * worth, comet.total_supply as int)
    &&& is_floor_of(
        quote.underlying_blnd as int,
        amount * comet.blnd_reserve,
        comet.total_supply as int,
    )
}

/// Whether all amounts of a tier are quoted so.
pub open spec fn tier_is_quoted(
    tier: PoolTierValuation,
    amounts: TierAmounts,
    worth: int,
    comet: CometComposition,
) -> bool {
    &&& amounts.2 <= comet.total_supply
    &&& is_quoted(tier.active, amounts.0, worth, comet)
    &&& is_quoted(tier.queued, amounts.1, worth, comet)
    &&& is_quoted(tier.total, amounts.2, worth, comet)
}

/// Whether an empty tier stands as it is.
pub open spec fn tier_is_unpriced(tier: PoolTierValuation, amounts: TierAmounts) -> bool {
    &&& tier.active.usdc_value == amounts.0 && tier.active.underlying_blnd == amounts.0
    &&& tier.queued.usdc_value == amounts.1 && tier.queued.underlying_blnd == amounts.1
    &&& tier.total.usdc_value == amounts.2 && tier.total.underlying_blnd == amounts.2
}

proof fn lemma_quoted(amount: i128, worth: int, comet: CometComposition)
    requires
        comet.well_formed(),
    ensures
        spec_quote_from_composition(amount as int, worth, comet) matches Ok(quote) ==> is_quoted(
            quote,
            amount,
            worth,
            comet,
        ),
{
    lemma_floor(amount * worth, comet.total_supply as int);
    lemma_floor(amount * comet.blnd_reserve, comet.total_supply as int);
}

proof fn lemma_tier_quoted(amounts: TierAmounts, worth: int, comet: CometComposition)
    requires
        comet.well_formed(),
    ensures
        spec_pool_tier_valuation(amounts, worth, comet) matches Ok(tier) ==> worth > 0
            && tier_is_quoted(tier, amounts, worth, comet),
{
    lemma_quoted(amounts.0, worth, comet);
    lemma_quoted(amounts.1, worth, comet);
    lemma_quoted(amounts.2, worth, comet);
}

/// Whether the BLND:USDC and BLND:XLM tiers of a pool are quoted by the Comet pools that
/// issued their LP tokens. A pool that holds none needs no Comet pool, and one without
/// BLND:XLM needs only that of BLND:USDC.
pub open spec fn tiers_are_quoted(
    first: PoolTierValuation,
    second: PoolTierValuation,
    blnd_usdc: TierAmounts,
    blnd_xlm: TierAmounts,
    anchor: Option<CometReading>,
    target: Option<CometReading>,
) -> bool {
    if blnd_usdc.2 == 0 && blnd_xlm.2 == 0 {
        tier_is_unpriced(first, blnd_usdc) && tier_is_unpriced(second, blnd_xlm)
    } else {
        let a = reported(anchor)->Some_0;
        let t = reported(target)->Some_0;
        &&& anchor matches Some(reading) && readable(reading)
        &&& tier_is_quoted(first, blnd_usdc, 5 * a.pair_reserve, a)
        &&& if blnd_xlm.2 == 0 {
            tier_is_unpriced(second, blnd_xlm)
        } else {
            &&& target matches Some(reading) && readable(reading)
            &&& exists|worth: int| #[trigger]
                is_worth(worth, a, t) && tier_is_quoted(second, blnd_xlm, worth, t)
        }
    }
}

/// LP tokens are quoted by their part of their own Comet pool, of its worth and of its
/// BLND.
pub proof fn law_lp_tokens_are_quoted_by_their_own_comet(
    blnd_usdc: TierAmounts,
    blnd_xlm: TierAmounts,
    anchor: Option<CometReading>,
    target: Option<CometReading>,
)
    ensures
        spec_quote_pool_lp_amounts(blnd_usdc, blnd_xlm, anchor, target) matches Ok(
            (first, second),
        ) ==> {
            &&& 0 <= blnd_usdc.0 && 0 <= blnd_usdc.1 && 0 <= blnd_usdc.2
            &&& 0 <= blnd_xlm.0 && 0 <= blnd_xlm.1 && 0 <= blnd_xlm.2
            &&& tiers_are_quoted(first, second, blnd_usdc, blnd_xlm, anchor, target)
        },
{
    if let Ok((first, second)) = spec_quote_pool_lp_amounts(blnd_usdc, blnd_xlm, anchor, target) {
        if !(blnd_usdc.2 == 0 && blnd_xlm.2 == 0) {
            let a = spec_read_comet(anchor->Some_0)->Ok_0;
            assert(a == reported(anchor)->Some_0);
            lemma_tier_quoted(blnd_usdc, 5 * a.pair_reserve, a);
            if blnd_xlm.2 != 0 {
                let t = spec_read_comet(target->Some_0)->Ok_0;
                assert(t == reported(target)->Some_0);
                let product = t.blnd_reserve * (5 * a.pair_reserve);
                lemma_floor(product, a.blnd_reserve as int);
                let worth = product / a.blnd_reserve as int;
                lemma_tier_quoted(blnd_xlm, worth, t);
                assert(is_worth(worth, a, t));
            }
        }
    }
}

/// What BLND:XLM LP tokens are quoted at does not depend on the XLM in their Comet pool.
pub proof fn law_quotes_do_not_depend_on_the_xlm_reserve(
    amounts: TierAmounts,
    anchor: CometComposition,
    target: CometReading,
    other: CometReading,
)
    requires
        readable(target),
        readable(other),
        target.blnd_reserve == other.blnd_reserve,
        target.total_supply == other.total_supply,
    ensures
        spec_target_quotes(amounts, anchor, Some(target)) == spec_target_quotes(
            amounts,
            anchor,
            Some(other),
        ),
{
}

/// A registered pool is valued by its three tiers: the two kinds of LP tokens as quoted,
/// and USDC one to one. What it weighs for emissions is the BLND behind its active LP
/// tokens.
pub proof fn law_pools_are_valued_by_their_three_tiers(
    is_pool: bool,
    balances: TierBalances,
    anchor: Option<CometReading>,
    target: Option<CometReading>,
)
    ensures
        spec_pool_valuation(is_pool, balances, anchor, target) matches Ok(v) ==> {
            let usdc = spec_partition(balances.usdc)->Ok_0;
            let (first, second) = quotes_of(balances, anchor, target);
            &&& is_pool
            &&& tiers_are_quoted(
                first,
                second,
                spec_partition(balances.blnd_usdc)->Ok_0,
                spec_partition(balances.blnd_xlm)->Ok_0,
                anchor,
                target,
            )
            &&& v.active_blnd.blnd_usdc == first.active.underlying_blnd
            &&& v.active_blnd.blnd_xlm == second.active.underlying_blnd
            &&& v.active_values.blnd_usdc == first.active.usdc_value
            &&& v.active_values.blnd_xlm == second.active.usdc_value
            &&& v.active_values.usdc == usdc.0
            &&& v.queued_values.blnd_usdc == first.queued.usdc_value
            &&& v.queued_values.blnd_xlm == second.queued.usdc_value
            &&& v.queued_values.usdc == usdc.1
            &&& v.total_values.blnd_usdc == first.total.usdc_value
            &&& v.total_values.blnd_xlm == second.total.usdc_value
            &&& v.total_values.usdc == balances.usdc.tokens
        },
{
    if let Ok(v) = spec_pool_valuation(is_pool, balances, anchor, target) {
        law_tiers_are_parted_by_their_queue(balances.usdc);
        law_lp_tokens_are_quoted_by_their_own_comet(
            spec_partition(balances.blnd_usdc)->Ok_0,
            spec_partition(balances.blnd_xlm)->Ok_0,
            anchor,
            target,
        );
    }
}

/// The quotes of a pool's two LP tiers.
pub open spec fn quotes_of(
    balances: TierBalances,
    anchor: Option<CometReading>,
    target: Option<CometReading>,
) -> (PoolTierValuation, PoolTierValuation) {
    spec_quote_pool_lp_amounts(
        spec_partition(balances.blnd_usdc)->Ok_0,
        spec_partition(balances.blnd_xlm)->Ok_0,
        anchor,
        target,
    )->Ok_0
}

/// A pool's data holds the tokens, the shares and the worth of each tier under its own
/// name, the sum of what is active, and the queued value in all of its value, rounded up.
pub proof fn law_pool_data_names_every_tier(
    is_pool: bool,
    balances: TierBalances,
    anchor: Option<CometReading>,
    target: Option<CometReading>,
)
    ensures
        spec_pool_data(is_pool, balances, anchor, target) matches Ok(data) ==> {
            let v = spec_pool_valuation(is_pool, balances, anchor, target)->Ok_0;
            let active = v.active_values.blnd_usdc + v.active_values.blnd_xlm
                + v.active_values.usdc;
            let queued = v.queued_values.blnd_usdc + v.queued_values.blnd_xlm
                + v.queued_values.usdc;
            &&& spec_pool_valuation(is_pool, balances, anchor, target) is Ok
            &&& data.active_value == active
            &&& active + queued > 0 ==> is_ceil_of(
                data.q4w_pct as int,
                queued * 10_000_000,
                active + queued,
            )
            &&& active + queued == 0 ==> data.q4w_pct == 0
            &&& data.blnd_usdc.tokens == balances.blnd_usdc.tokens
            &&& data.blnd_usdc.shares == balances.blnd_usdc.shares
            &&& data.blnd_usdc.value == v.total_values.blnd_usdc
            &&& data.blnd_xlm.tokens == balances.blnd_xlm.tokens
            &&& data.blnd_xlm.shares == balances.blnd_xlm.shares
            &&& data.blnd_xlm.value == v.total_values.blnd_xlm
            &&& data.usdc.tokens == balances.usdc.tokens
            &&& data.usdc.shares == balances.usdc.shares
            &&& data.usdc.value == v.total_values.usdc
        },
{
    if let Ok(data) = spec_pool_data(is_pool, balances, anchor, target) {
        let v = spec_pool_valuation(is_pool, balances, anchor, target)->Ok_0;
        law_queued_fractions_are_of_the_sums(v.active_values, v.queued_values);
    }
}

/// The queued fraction is that of the sums over all tiers, which hold nothing negative and
/// have room.
pub proof fn law_queued_fractions_are_of_the_sums(
    active: ActivationValues,
    queued: ActivationValues,
)
    ensures
        ({
            let a = active.blnd_usdc + active.blnd_xlm + active.usdc;
            let q = queued.blnd_usdc + queued.blnd_xlm + queued.usdc;
            &&& spec_activation_total(active) is Ok <==> 0 <= active.blnd_usdc && 0
                <= active.blnd_xlm && 0 <= active.usdc && a <= i128::MAX
            &&& spec_activation_total(active) matches Ok(total) ==> total == a
            &&& spec_q4w_percentage(active, queued) is Ok <==> 0 <= active.blnd_usdc && 0
                <= active.blnd_xlm && 0 <= active.usdc && 0 <= queued.blnd_usdc && 0
                <= queued.blnd_xlm && 0 <= queued.usdc && a + q <= i128::MAX
            &&& spec_q4w_percentage(active, queued) matches Ok(fraction) ==> {
                &&& a + q > 0 ==> is_ceil_of(fraction as int, q * 10_000_000, a + q)
                &&& a + q == 0 ==> fraction == 0
            }
        }),
{
    let a = active.blnd_usdc + active.blnd_xlm + active.usdc;
    let q = queued.blnd_usdc + queued.blnd_xlm + queued.usdc;
    if spec_q4w_percentage(active, queued) is Ok && a + q > 0 {
        law_the_queued_fraction_is_rounded_up(a, q);
        law_q4w_fraction_is_a_fraction(a, q);
    }
}

/// Whether the adapter quotes an amount by its part of a Comet pool, without an end to the
/// quote.
pub open spec fn adapter_quotes(
    quote: AdapterQuote,
    amount: i128,
    worth: int,
    comet: CometReading,
) -> bool {
    &&& amount <= comet.total_supply
    &&& is_floor_of(quote.usdc_value as int, amount * worth, comet.total_supply as int)
    &&& is_floor_of(
        quote.underlying_blnd as int,
        amount * comet.blnd_reserve,
        comet.total_supply as int,
    )
    &&& quote.valid_until == u64::MAX
}

proof fn lemma_adapter_quotes(amount: i128, worth: int, comet: CometReading)
    requires
        readable(comet),
    ensures
        spec_quote_amount(
            amount as int,
            worth,
            reported(Some(comet))->Some_0,
        ) matches Ok(quote) ==> worth > 0 && adapter_quotes(quote, amount, worth, comet),
{
    lemma_floor(amount * worth, comet.total_supply as int);
    lemma_floor(amount * comet.blnd_reserve, comet.total_supply as int);
}

/// The adapter quotes LP tokens of the two Comet pools it was set up with, each by its
/// part of its own pool: of its worth and of its BLND.
pub proof fn law_the_adapter_quotes_lp_tokens_by_their_own_comet(
    config: AdapterConfig,
    token: Address,
    amount: i128,
    anchor: CometReading,
    target: CometReading,
)
    ensures
        spec_quote(Some(config), token, amount, anchor, target) matches Ok(quote) ==> {
            &&& amount > 0
            &&& readable(anchor)
            &&& token == config.blnd_usdc || token == config.blnd_xlm
            &&& token == config.blnd_usdc ==> adapter_quotes(
                quote,
                amount,
                5 * anchor.pair_reserve,
                anchor,
            )
            &&& token != config.blnd_usdc ==> readable(target) && exists|worth: int| #[trigger]
                is_worth(
                    worth,
                    reported(Some(anchor))->Some_0,
                    reported(Some(target))->Some_0,
                ) && adapter_quotes(quote, amount, worth, target)
        },
{
    if let Ok(quote) = spec_quote(Some(config), token, amount, anchor, target) {
        let a = reported(Some(anchor))->Some_0;
        let t = reported(Some(target))->Some_0;
        assert(spec_read_comet(anchor) == Ok::<CometComposition, BackstopError>(a));
        if token == config.blnd_usdc {
            lemma_adapter_quotes(amount, 5 * a.pair_reserve, anchor);
        } else {
            assert(spec_read_comet(target) == Ok::<CometComposition, BackstopError>(t));
            let product = t.blnd_reserve * (5 * a.pair_reserve);
            lemma_floor(product, a.blnd_reserve as int);
            let worth = product / a.blnd_reserve as int;
            lemma_adapter_quotes(amount, worth, target);
            assert(is_worth(worth, a, t));
        }
    }
}

/// The adapter owes a quote for every amount that exists of its LP tokens, wherever the
/// Comet pools can be read and their worth has room.
pub proof fn law_the_adapter_owes_a_quote(
    config: AdapterConfig,
    token: Address,
    amount: i128,
    anchor: CometReading,
    target: CometReading,
    worth: int,
)
    requires
        amount > 0,
        readable(anchor),
        5 * anchor.pair_reserve <= i128::MAX,
        token == config.blnd_usdc && amount <= anchor.total_supply || token != config.blnd_usdc
            && token == config.blnd_xlm && readable(target) && amount <= target.total_supply
            && worth <= i128::MAX && is_worth(
            worth,
            reported(Some(anchor))->Some_0,
            reported(Some(target))->Some_0,
        ),
    ensures
        spec_quote(Some(config), token, amount, anchor, target) is Ok,
{
    let a = reported(Some(anchor))->Some_0;
    let t = reported(Some(target))->Some_0;
    assert(spec_read_comet(anchor) == Ok::<CometComposition, BackstopError>(a));
    if token == config.blnd_usdc {
        lemma_owed(amount as int, 5 * a.pair_reserve, a);
    } else {
        assert(spec_read_comet(target) == Ok::<CometComposition, BackstopError>(t));
        lemma_floor_is_unique(
            worth,
            t.blnd_reserve * (5 * a.pair_reserve),
            a.blnd_reserve as int,
        );
        lemma_owed(amount as int, worth, t);
    }
}

proof fn lemma_owed(amount: int, worth: int, comet: CometComposition)
    requires
        comet.well_formed(),
        0 < amount <= comet.total_supply,
        0 < worth <= i128::MAX,
    ensures
        spec_quote_amount(amount, worth, comet) is Ok,
{
    lemma_part_fits(amount, worth, comet.total_supply as int);
    lemma_part_fits(
        amount,
        comet.blnd_reserve as int,
        comet.total_supply as int,
    );
}

} // verus!
