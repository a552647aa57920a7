//! What a pool pays its tiers, and what its tiers pay for its bad debt.

use vstd::prelude::*;

use super::bad_debt::{
    law_lot_covers_the_target, spec_bad_debt_step, spec_lot, BadDebtCommitment, BadDebtLotQuote,
    BadDebtStep, LpQuotes,
};
use super::interest::{
    law_take_rate_conserves_the_distribution, spec_batch_entry, spec_quote_take_rate,
    spec_take_rate_batch, spec_take_rate_values, TakeRateQuote, TakeRateValues,
};
use super::pool::PoolBalance;
use super::tier::BackstopTier;
use super::valuation::TierBalances;
use crate::dependencies::backstop_valuation::AssetValuation;
use crate::errors::BackstopError;
use crate::math::{ceil_div, is_ceil_of, is_floor_of, lemma_ceil, lemma_floor};
use crate::results::{collected, lemma_collected_ok};
use crate::Address;

verus! {

/// The take rate is shared by value, where BLND:XLM counts four times, BLND:USDC three times
/// and USDC twice: each tier has its part, rounded down, and what is lost in the rounding
/// remains. Where the tiers are worth nothing, all of it remains.
pub proof fn law_the_take_rate_is_shared_four_three_two(
    distribution: i128,
    values: TakeRateValues,
)
    ensures
        ({
            let all = 3 * values.blnd_usdc + 4 * values.blnd_xlm + 2 * values.usdc;
            let r = spec_quote_take_rate(distribution, values);
            &&& r is Ok <==> distribution >= 0 && values.blnd_usdc >= 0 && values.blnd_xlm >= 0
                && values.usdc >= 0 && all <= i128::MAX
            &&& r matches Ok(quote) ==> {
                &&& quote.blnd_usdc + quote.blnd_xlm + quote.usdc + quote.remainder == distribution
                &&& if all == 0 {
                    quote.blnd_usdc == 0 && quote.blnd_xlm == 0 && quote.usdc == 0
                } else {
                    &&& is_floor_of(
                        quote.blnd_usdc as int,
                        distribution * (3 * values.blnd_usdc),
                        all,
                    )
                    &&& is_floor_of(
                        quote.blnd_xlm as int,
                        distribution * (4 * values.blnd_xlm),
                        all,
                    )
                    &&& is_floor_of(quote.usdc as int, distribution * (2 * values.usdc), all)
                }
            }
        }),
{
    let all = 3 * values.blnd_usdc + 4 * values.blnd_xlm + 2 * values.usdc;
    if distribution >= 0 && values.blnd_usdc >= 0 && values.blnd_xlm >= 0 && values.usdc >= 0
        && 0 < all <= i128::MAX {
        law_take_rate_conserves_the_distribution(distribution, values);
        lemma_part_fits(distribution as int, 3 * values.blnd_usdc, all);
        lemma_part_fits(distribution as int, 4 * values.blnd_xlm, all);
        lemma_part_fits(distribution as int, 2 * values.usdc, all);
    } else if spec_quote_take_rate(distribution, values) is Ok {
        law_take_rate_conserves_the_distribution(distribution, values);
    }
}

proof fn lemma_part_fits(distribution: int, part: int, whole: int)
    requires
        0 <= distribution <= i128::MAX,
        0 <= part <= whole,
        whole > 0,
    ensures
        is_floor_of(distribution * part / whole, distribution * part, whole),
        0 <= distribution * part / whole <= i128::MAX,
{
    lemma_floor(distribution * part, whole);
    let q = distribution * part / whole;
    assert(0 <= distribution * part <= distribution * whole) by (nonlinear_arith)
        requires
            distribution >= 0,
            0 <= part <= whole,
    ;
    assert(0 <= q <= distribution) by (nonlinear_arith)
        requires
            q * whole <= distribution * part < q * whole + whole,
            0 <= distribution * part <= distribution * whole,
            whole > 0,
    ;
}

/// Whether a price can be used: it is not negative and has not run out.
pub open spec fn usable(price: AssetValuation, now: u64) -> bool {
    price.underlying_blnd >= 0 && price.usdc_value >= 0 && price.valid_until >= now
}

/// A pool's tiers count what they are priced at, each at its own price, and USDC what it
/// holds. An empty tier needs no price, and any other one that can be used.
pub proof fn law_take_rates_count_each_tier_at_its_price(
    balances: TierBalances,
    blnd_usdc_price: Option<AssetValuation>,
    blnd_xlm_price: Option<AssetValuation>,
    now: u64,
)
    requires
        balances.blnd_usdc.tokens > 0 ==> blnd_usdc_price is Some,
        balances.blnd_xlm.tokens > 0 ==> blnd_xlm_price is Some,
    ensures
        ({
            let r = spec_take_rate_values(balances, blnd_usdc_price, blnd_xlm_price, now);
            &&& r is Ok <==> balances.blnd_usdc.tokens >= 0 && balances.blnd_xlm.tokens >= 0 && (
            balances.blnd_usdc.tokens > 0 ==> usable(blnd_usdc_price->Some_0, now)) && (
            balances.blnd_xlm.tokens > 0 ==> usable(blnd_xlm_price->Some_0, now))
            &&& r matches Ok(values) ==> {
                &&& values.usdc == balances.usdc.tokens
                &&& values.blnd_usdc == if balances.blnd_usdc.tokens == 0 {
                    0
                } else {
                    blnd_usdc_price->Some_0.usdc_value
                }
                &&& values.blnd_xlm == if balances.blnd_xlm.tokens == 0 {
                    0
                } else {
                    blnd_xlm_price->Some_0.usdc_value
                }
            }
        }),
{
}

/// A registered pool has up to four distributions quoted at once, each on its own.
pub proof fn law_take_rate_batches_quote_every_distribution(
    is_pool: bool,
    distributions: Seq<(Address, i128)>,
    values: Result<TakeRateValues, BackstopError>,
)
    ensures
        spec_take_rate_batch(is_pool, distributions, values) is Ok <==> {
            &&& is_pool
            &&& 1 <= distributions.len() <= 4
            &&& values is Ok
            &&& forall|i: int|
                0 <= i < distributions.len() ==> spec_quote_take_rate(
                    (#[trigger] distributions[i]).1,
                    values->Ok_0,
                ) is Ok
        },
        spec_take_rate_batch(is_pool, distributions, values) matches Ok(quotes) ==> {
            &&& quotes.len() == distributions.len()
            &&& forall|i: int|
                0 <= i < distributions.len() ==> (#[trigger] quotes[i]).0 == distributions[i].0
                    && spec_quote_take_rate(distributions[i].1, values->Ok_0) == Ok::<
                    TakeRateQuote,
                    BackstopError,
                >(quotes[i].1)
        },
{
    if let Ok(v) = values {
        let entries = distributions.map_values(
            |entry: (Address, i128)| spec_batch_entry(entry, v),
        );
        lemma_collected_ok(entries);
        assert forall|i: int| 0 <= i < distributions.len() implies ((#[trigger] entries[i]) is Ok
            <==> spec_quote_take_rate(distributions[i].1, v) is Ok) by {}
        if collected(entries) is Ok {
            assert forall|i: int| 0 <= i < distributions.len() implies spec_quote_take_rate(
                (#[trigger] distributions[i]).1,
                v,
            ) is Ok by {
                assert(entries[i] is Ok);
            }
        } else if forall|i: int|
            0 <= i < distributions.len() ==> spec_quote_take_rate(
                (#[trigger] distributions[i]).1,
                v,
            ) is Ok {
            assert forall|i: int| 0 <= i < entries.len() implies (#[trigger] entries[i]) is Ok by {
                assert(spec_quote_take_rate(distributions[i].1, v) is Ok);
            }
        }
    }
}

/// What a tier holds that no auction has reserved.
pub open spec fn unreserved(
    balance: PoolBalance,
    commitment: Option<BadDebtCommitment>,
    tier: BackstopTier,
) -> int {
    balance.tokens - match commitment {
        Some(reserved) if reserved.quote.tier == tier => reserved.quote.lot_amount as int,
        _ => 0,
    }
}

/// Whether a tier is passed over: it has nothing free, or what it has is worth less than
/// 200 USDC.
pub open spec fn passed_over(free: int, price: Option<AssetValuation>, now: u64) -> bool {
    free == 0 || (free > 0 && price is Some && usable(price->Some_0, now)
        && price->Some_0.usdc_value < 2_000_000_000)
}

/// Whether a tier pays: it has something free that is worth at least 200 USDC.
pub open spec fn pays(free: int, price: Option<AssetValuation>, now: u64) -> bool {
    free > 0 && price is Some && usable(price->Some_0, now) && price->Some_0.usdc_value
        >= 2_000_000_000
}

/// Whether a lot of a tier pays for a debt: six fifths of it, rounded up, with all that the
/// tier has free, where that is worth no more, and else with the least amount that is worth
/// it at the tier's price.
pub open spec fn lot_pays(
    quote: BadDebtLotQuote,
    debt_value: i128,
    free: int,
    price: AssetValuation,
) -> bool {
    &&& quote.debt_value == debt_value
    &&& is_ceil_of(quote.target_value as int, 6 * debt_value, 5)
    &&& quote.valid_until == price.valid_until
    &&& if price.usdc_value <= quote.target_value {
        &&& quote.lot_amount == free
        &&& quote.committed_value == price.usdc_value
        &&& quote.unfilled_target_value == quote.target_value - price.usdc_value
    } else {
        &&& is_ceil_of(
            quote.lot_amount as int,
            quote.target_value * free,
            price.usdc_value as int,
        )
        &&& is_floor_of(quote.committed_value as int, price.usdc_value * quote.lot_amount, free)
        &&& quote.unfilled_target_value == 0
    }
}

/// Whether a step ends with such a lot of this tier.
pub open spec fn tier_pays(
    step: Result<BadDebtStep, BackstopError>,
    tier: BackstopTier,
    debt_value: i128,
    free: int,
    price: AssetValuation,
) -> bool {
    &&& step matches Ok(BadDebtStep::Lot(quote))
    &&& quote.tier == tier
    &&& lot_pays(quote, debt_value, free, price)
}

/// The price of USDC: one to one, without an end.
pub open spec fn usdc_at_par(free: int) -> AssetValuation {
    AssetValuation { underlying_blnd: 0, usdc_value: free as i128, valid_until: u64::MAX }
}

proof fn lemma_lot_pays(
    tier: BackstopTier,
    assets: i128,
    price: AssetValuation,
    debt_value: i128,
    target_value: i128,
)
    requires
        assets > 0,
        price.usdc_value >= 2_000_000_000,
        debt_value > 0,
        is_ceil_of(target_value as int, 6 * debt_value, 5),
    ensures
        lot_pays(
            spec_lot(tier, assets, price, debt_value, target_value),
            debt_value,
            assets as int,
            price,
        ),
{
    let value = price.usdc_value as int;
    let target = target_value as int;
    law_lot_covers_the_target(assets as int, value, target);
    if value > target {
        lemma_ceil(target * assets, value);
        let lot = ceil_div(target * assets, value);
        lemma_floor(value * lot, assets as int);
    }
}

/// Bad debt is paid by the first tier that pays, BLND:USDC before BLND:XLM before USDC,
/// with the lot that is owed for it. A tier whose worth is not known yet is priced first,
/// and where every tier is passed over there is no lot.
pub proof fn law_the_first_tier_that_can_pays_for_bad_debt(
    debt_value: i128,
    version_matches: bool,
    balances: TierBalances,
    commitment: Option<BadDebtCommitment>,
    quotes: LpQuotes,
    now: u64,
)
    requires
        debt_value > 0,
        6 * debt_value <= i128::MAX,
        version_matches,
        0 <= unreserved(balances.blnd_usdc, commitment, BackstopTier::BlndUsdc) <= i128::MAX,
        0 <= unreserved(balances.blnd_xlm, commitment, BackstopTier::BlndXlm) <= i128::MAX,
        0 <= unreserved(balances.usdc, commitment, BackstopTier::Usdc) <= i128::MAX,
    ensures
        ({
            let step = spec_bad_debt_step(
                debt_value,
                version_matches,
                balances,
                commitment,
                quotes,
                now,
            );
            let first = unreserved(balances.blnd_usdc, commitment, BackstopTier::BlndUsdc);
            let second = unreserved(balances.blnd_xlm, commitment, BackstopTier::BlndXlm);
            let third = unreserved(balances.usdc, commitment, BackstopTier::Usdc);
            let par = usdc_at_par(third);
            &&& pays(first, quotes.blnd_usdc, now) ==> tier_pays(
                step,
                BackstopTier::BlndUsdc,
                debt_value,
                first,
                quotes.blnd_usdc->Some_0,
            )
            &&& first > 0 && quotes.blnd_usdc is None ==> step == Ok::<BadDebtStep, BackstopError>(
                BadDebtStep::Price(BackstopTier::BlndUsdc, first as i128),
            )
            &&& passed_over(first, quotes.blnd_usdc, now) ==> {
                &&& pays(second, quotes.blnd_xlm, now) ==> tier_pays(
                    step,
                    BackstopTier::BlndXlm,
                    debt_value,
                    second,
                    quotes.blnd_xlm->Some_0,
                )
                &&& second > 0 && quotes.blnd_xlm is None ==> step == Ok::<
                    BadDebtStep,
                    BackstopError,
                >(BadDebtStep::Price(BackstopTier::BlndXlm, second as i128))
                &&& passed_over(second, quotes.blnd_xlm, now) ==> {
                    &&& pays(third, Some(par), now) ==> tier_pays(
                        step,
                        BackstopTier::Usdc,
                        debt_value,
                        third,
                        par,
                    )
                    &&& passed_over(third, Some(par), now) ==> step == Ok::<
                        BadDebtStep,
                        BackstopError,
                    >(BadDebtStep::NoLot)
                }
            }
        }),
{
    let first = unreserved(balances.blnd_usdc, commitment, BackstopTier::BlndUsdc);
    let second = unreserved(balances.blnd_xlm, commitment, BackstopTier::BlndXlm);
    let third = unreserved(balances.usdc, commitment, BackstopTier::Usdc);
    lemma_ceil(debt_value * 6, 5);
    let target = ceil_div(debt_value * 6, 5);
    assert(0 < target <= i128::MAX);
    if pays(first, quotes.blnd_usdc, now) {
        lemma_lot_pays(
            BackstopTier::BlndUsdc,
            first as i128,
            quotes.blnd_usdc->Some_0,
            debt_value,
            target as i128,
        );
    }
    if pays(second, quotes.blnd_xlm, now) {
        lemma_lot_pays(
            BackstopTier::BlndXlm,
            second as i128,
            quotes.blnd_xlm->Some_0,
            debt_value,
            target as i128,
        );
    }
    if pays(third, Some(usdc_at_par(third)), now) {
        lemma_lot_pays(
            BackstopTier::Usdc,
            third as i128,
            usdc_at_par(third),
            debt_value,
            target as i128,
        );
    }
}

/// No lot is quoted for no debt, without the pool's own version of the tiers, or from a
/// price that cannot be used.
pub proof fn law_bad_debt_is_paid_only_at_usable_prices(
    debt_value: i128,
    version_matches: bool,
    balances: TierBalances,
    commitment: Option<BadDebtCommitment>,
    quotes: LpQuotes,
    now: u64,
)
    ensures
        spec_bad_debt_step(
            debt_value,
            version_matches,
            balances,
            commitment,
            quotes,
            now,
        ) matches Ok(step) ==> {
            &&& debt_value > 0
            &&& version_matches
            &&& step matches BadDebtStep::Lot(quote) ==> {
                &&& quote.tier == BackstopTier::BlndUsdc ==> usable(quotes.blnd_usdc->Some_0, now)
                &&& quote.tier == BackstopTier::BlndXlm ==> usable(quotes.blnd_xlm->Some_0, now)
                    && passed_over(
                    unreserved(balances.blnd_usdc, commitment, BackstopTier::BlndUsdc),
                    quotes.blnd_usdc,
                    now,
                )
                &&& quote.tier == BackstopTier::Usdc ==> passed_over(
                    unreserved(balances.blnd_usdc, commitment, BackstopTier::BlndUsdc),
                    quotes.blnd_usdc,
                    now,
                ) && passed_over(
                    unreserved(balances.blnd_xlm, commitment, BackstopTier::BlndXlm),
                    quotes.blnd_xlm,
                    now,
                )
            }
        },
{
}

} // verus!
