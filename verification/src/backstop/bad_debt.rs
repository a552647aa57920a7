//! Selection and reservation of the lot that a bad-debt auction sells.

use soroban_sdk::Env;
use vstd::prelude::*;

use super::pool::PoolBalance;
use super::tier::BackstopTier;
use super::valuation::TierBalances;
use crate::dependencies::backstop_valuation::AssetValuation;
use crate::errors::BackstopError;
use crate::math::{
    ceil_div, fits_i128, lemma_ceil_by_floor, lemma_quotient_bounds, mul_div_ceil, mul_div_floor,
};

verus! {

/// Numerator of the premium that a lot's value carries over the debt.
pub const BAD_DEBT_LOT_PREMIUM_NUMERATOR: i128 = 6;

/// Denominator of the premium that a lot's value carries over the debt.
pub const BAD_DEBT_LOT_PREMIUM_DENOMINATOR: i128 = 5;

/// The least USDC value of a tier that can be drawn on.
pub const BAD_DEBT_TIER_MINIMUM_VALUE_USDC: i128 = 2_000_000_000;

/// The 32 bytes of an auction's identifier, as two big-endian halves.
#[derive(Clone, Copy, Debug, PartialEq, Eq, Structural)]
pub struct AuctionId {
    pub hi: u128,
    pub lo: u128,
}

/// Canonical single-tier lot selected for one pool's bad-debt auction.
#[derive(Clone, Copy, Debug, PartialEq, Eq, Structural)]
pub struct BadDebtLotQuote {
    pub committed_value: i128,
    pub debt_value: i128,
    pub tier: BackstopTier,
    pub lot_amount: i128,
    pub unfilled_target_value: i128,
    pub target_value: i128,
    pub valid_until: u64,
}

/// A lot that is reserved for one auction.
#[derive(Clone, Copy, Debug, PartialEq, Eq, Structural)]
pub struct BadDebtCommitment {
    pub auction_id: AuctionId,
    pub quote: BadDebtLotQuote,
}

/// `floor(value * numerator / denominator)`, an overflow where it has no `i128` result.
pub open spec fn spec_proportional_floor(value: int, numerator: int, denominator: int) -> Result<
    i128,
    BackstopError,
> {
    if value < 0 || numerator < 0 || denominator <= 0 || !fits_i128(
        value * numerator / denominator,
    ) {
        Err(BackstopError::OverflowError)
    } else {
        Ok((value * numerator / denominator) as i128)
    }
}

/// `floor(value * numerator / denominator)`.
pub fn proportional_floor(e: &Env, value: i128, numerator: i128, denominator: i128) -> (r: Result<
    i128,
    BackstopError,
>)
    ensures
        r == spec_proportional_floor(value as int, numerator as int, denominator as int),
{
    if value < 0 || numerator < 0 || denominator <= 0 {
        return Err(BackstopError::OverflowError);
    }
    match mul_div_floor(e, value, numerator, denominator) {
        Some(quotient) => Ok(quotient),
        None => Err(BackstopError::OverflowError),
    }
}

/// `ceil(value * numerator / denominator)`, an overflow where it has no `i128` result.
pub open spec fn spec_proportional_ceil(value: int, numerator: int, denominator: int) -> Result<
    i128,
    BackstopError,
> {
    if value < 0 || numerator < 0 || denominator <= 0 || !fits_i128(
        ceil_div(value * numerator, denominator),
    ) {
        Err(BackstopError::OverflowError)
    } else {
        Ok(ceil_div(value * numerator, denominator) as i128)
    }
}

/// `ceil(value * numerator / denominator)`.
pub fn proportional_ceil(e: &Env, value: i128, numerator: i128, denominator: i128) -> (r: Result<
    i128,
    BackstopError,
>)
    ensures
        r == spec_proportional_ceil(value as int, numerator as int, denominator as int),
{
    if value < 0 || numerator < 0 || denominator <= 0 {
        return Err(BackstopError::OverflowError);
    }
    match mul_div_ceil(e, value, numerator, denominator) {
        Some(quotient) => Ok(quotient),
        None => Err(BackstopError::OverflowError),
    }
}

/// The lot, its value and the part of the target that it leaves open: all assets
/// where they are not worth more than the target, else the least amount that
/// is worth it.
pub open spec fn spec_allocation(assets: int, value: int, target: int) -> (int, int, int) {
    if value <= target {
        (assets, value, target - value)
    } else {
        let lot = ceil_div(target * assets, value);
        (lot, value * lot / assets, 0)
    }
}

/// A lot is never larger than the tier, its value and what it leaves open reach
/// the target, nothing is left open where the tier is worth the target, and
/// no smaller lot is worth it.
pub proof fn law_lot_covers_the_target(assets: int, value: int, target: int)
    requires
        assets > 0,
        value > 0,
        target > 0,
    ensures
        ({
            let (lot, committed, open) = spec_allocation(assets, value, target);
            &&& 0 < lot <= assets
            &&& 0 < committed <= value
            &&& open >= 0
            &&& committed + open >= target
            &&& (open > 0 <==> value < target)
            &&& (value > target ==> forall|less: int|
                0 <= less < lot ==> #[trigger] (value * less) < target * assets)
        }),
{
    if value > target {
        let lot = ceil_div(target * assets, value);
        let committed = value * lot / assets;
        lemma_ceil_by_floor(target * assets, value);
        assert(0 < lot <= assets) by (nonlinear_arith)
            requires
                lot * value >= target * assets,
                (lot - 1) * value < target * assets,
                value > target,
                target > 0,
                assets > 0,
        ;
        assert(value * lot >= 0) by (nonlinear_arith)
            requires
                value > 0,
                lot > 0,
        ;
        lemma_quotient_bounds(value * lot, assets);
        assert(target <= committed <= value) by (nonlinear_arith)
            requires
                lot * value >= target * assets,
                lot <= assets,
                committed * assets <= value * lot,
                value * lot < committed * assets + assets,
                assets > 0,
                value > 0,
        ;
        assert forall|less: int| 0 <= less < lot implies #[trigger] (value * less) < target
            * assets by {
            assert(value * less < target * assets) by (nonlinear_arith)
                requires
                    less <= lot - 1,
                    (lot - 1) * value < target * assets,
                    value > 0,
            ;
        }
    }
}

/// Size the lot that a tier gives up for a target value.
pub fn allocate_bad_debt_tier(
    e: &Env,
    available_assets: i128,
    available_value: i128,
    target_value: i128,
) -> (r: Result<(i128, i128, i128), BackstopError>)
    ensures
        match r {
            Ok(lot) => {
                &&& available_assets > 0 && available_value > 0 && target_value > 0
                &&& (lot.0 as int, lot.1 as int, lot.2 as int) == spec_allocation(
                    available_assets as int,
                    available_value as int,
                    target_value as int,
                )
            },
            Err(error) => {
                &&& available_assets <= 0 || available_value <= 0 || target_value <= 0
                &&& error == BackstopError::InternalError
            },
        },
{
    if available_assets <= 0 || available_value <= 0 || target_value <= 0 {
        return Err(BackstopError::InternalError);
    }
    if available_value <= target_value {
        return Ok((available_assets, available_value, target_value - available_value));
    }
    proof {
        law_lot_covers_the_target(
            available_assets as int,
            available_value as int,
            target_value as int,
        );
    }
    let lot_amount: i128 = proportional_ceil(e, target_value, available_assets, available_value)?;
    if lot_amount <= 0 || lot_amount > available_assets {
        return Err(BackstopError::InternalError);
    }
    let committed_value: i128 = proportional_floor(
        e,
        available_value,
        lot_amount,
        available_assets,
    )?;
    if committed_value < target_value {
        return Err(BackstopError::InternalError);
    }
    Ok((lot_amount, committed_value, 0))
}

/// The assets of a tier that are reserved for an auction.
pub open spec fn spec_committed_assets(
    commitment: Option<BadDebtCommitment>,
    tier: BackstopTier,
) -> i128 {
    match commitment {
        Some(c) => if c.quote.tier == tier {
            c.quote.lot_amount
        } else {
            0
        },
        None => 0,
    }
}

/// The assets of a tier that are reserved for an auction.
pub fn pool_tier_committed_assets(
    commitment: &Option<BadDebtCommitment>,
    tier: BackstopTier,
) -> (r: i128)
    ensures
        r == spec_committed_assets(*commitment, tier),
{
    match commitment {
        Some(c) => if c.quote.tier == tier {
            c.quote.lot_amount
        } else {
            0
        },
        None => 0,
    }
}

/// How many lots of a pool are reserved.
pub fn pool_bad_debt_commitment_count(commitment: &Option<BadDebtCommitment>) -> (r: u32)
    ensures
        r == if commitment is Some {
            1u32
        } else {
            0u32
        },
{
    if commitment.is_some() {
        1
    } else {
        0
    }
}

/// The tier's tokens that are not reserved; more reserved than held is an internal error.
pub open spec fn spec_available_assets(
    balance: PoolBalance,
    commitment: Option<BadDebtCommitment>,
    tier: BackstopTier,
) -> Result<i128, BackstopError> {
    let available = balance.tokens - spec_committed_assets(commitment, tier);
    if 0 <= available <= i128::MAX {
        Ok(available as i128)
    } else {
        Err(BackstopError::InternalError)
    }
}

/// The tier's tokens that are not reserved.
pub fn available_pool_tier_assets(
    balance: &PoolBalance,
    commitment: &Option<BadDebtCommitment>,
    tier: BackstopTier,
) -> (r: Result<i128, BackstopError>)
    ensures
        r == spec_available_assets(*balance, *commitment, tier),
{
    let committed: i128 = pool_tier_committed_assets(commitment, tier);
    match balance.tokens.checked_sub(committed) {
        Some(available) => if available >= 0 {
            Ok(available)
        } else {
            Err(BackstopError::InternalError)
        },
        None => Err(BackstopError::InternalError),
    }
}

/// The lot quote that a pool's auction may ask for, if the auction is the one
/// that it is reserved for.
pub fn bad_debt_commitment(
    commitment: &Option<BadDebtCommitment>,
    auction_id: AuctionId,
) -> (r: Option<BadDebtLotQuote>)
    ensures
        r == match *commitment {
            Some(c) if c.auction_id == auction_id => Some(c.quote),
            _ => None,
        },
{
    match commitment {
        Some(c) => if c.auction_id == auction_id {
            Some(c.quote)
        } else {
            None
        },
        None => None,
    }
}

/// The prices that a valuation contract has given for the LP tiers so far.
#[derive(Clone, Copy, Debug, PartialEq, Eq, Structural)]
pub struct LpQuotes {
    pub blnd_usdc: Option<AssetValuation>,
    pub blnd_xlm: Option<AssetValuation>,
}

/// What one tier of the waterfall offers.
#[derive(Clone, Copy, Debug, PartialEq, Eq, Structural)]
pub enum TierOffer {
    /// Its accounting or its price cannot be used.
    Failed(BackstopError),
    /// It holds too little.
    Skipped,
    /// It holds this amount, which has to be priced first.
    Unpriced(i128),
    /// It holds this amount at this price.
    Priced(i128, AssetValuation),
}

/// The price of plain USDC: one to one, for ever.
pub open spec fn spec_usdc_price(assets: i128) -> AssetValuation {
    AssetValuation { underlying_blnd: 0, usdc_value: assets, valid_until: u64::MAX }
}

/// The objection to a price: a negative value, or an end of validity in the past.
pub open spec fn spec_check_price(price: AssetValuation, now: u64) -> Result<(), BackstopError> {
    if price.underlying_blnd < 0 || price.usdc_value < 0 {
        Err(BackstopError::InvalidValuation)
    } else if price.valid_until < now {
        Err(BackstopError::StaleValuation)
    } else {
        Ok(())
    }
}

/// Check a price that a valuation contract has given.
pub fn quote_lp_amount(price: &AssetValuation, now: u64) -> (r: Result<(), BackstopError>)
    ensures
        r == spec_check_price(*price, now),
{
    if price.underlying_blnd < 0 || price.usdc_value < 0 {
        return Err(BackstopError::InvalidValuation);
    }
    if price.valid_until < now {
        return Err(BackstopError::StaleValuation);
    }
    Ok(())
}

/// A price that reaches the minimum value of a tier is an offer.
pub open spec fn spec_offer_at(assets: i128, price: AssetValuation) -> TierOffer {
    if price.usdc_value < BAD_DEBT_TIER_MINIMUM_VALUE_USDC {
        TierOffer::Skipped
    } else {
        TierOffer::Priced(assets, price)
    }
}

/// What the tier offers.
pub open spec fn spec_tier_offer(
    tier: BackstopTier,
    balance: PoolBalance,
    commitment: Option<BadDebtCommitment>,
    price: Option<AssetValuation>,
    now: u64,
) -> TierOffer {
    match spec_available_assets(balance, commitment, tier) {
        Err(error) => TierOffer::Failed(error),
        Ok(assets) => if assets == 0 {
            TierOffer::Skipped
        } else if tier == BackstopTier::Usdc {
            spec_offer_at(assets, spec_usdc_price(assets))
        } else {
            match price {
                None => TierOffer::Unpriced(assets),
                Some(price) => match spec_check_price(price, now) {
                    Err(error) => TierOffer::Failed(error),
                    Ok(_) => spec_offer_at(assets, price),
                },
            }
        },
    }
}

/// What the tier offers.
pub fn tier_offer(
    tier: BackstopTier,
    balance: &PoolBalance,
    commitment: &Option<BadDebtCommitment>,
    price: Option<AssetValuation>,
    now: u64,
) -> (r: TierOffer)
    ensures
        r == spec_tier_offer(tier, *balance, *commitment, price, now),
{
    let assets: i128 = match available_pool_tier_assets(balance, commitment, tier) {
        Ok(assets) => assets,
        Err(error) => return TierOffer::Failed(error),
    };
    if assets == 0 {
        return TierOffer::Skipped;
    }
    let valuation = if tier == BackstopTier::Usdc {
        AssetValuation { underlying_blnd: 0, usdc_value: assets, valid_until: u64::MAX }
    } else {
        match price {
            None => return TierOffer::Unpriced(assets),
            Some(price) => match quote_lp_amount(&price, now) {
                Err(error) => return TierOffer::Failed(error),
                Ok(_) => price,
            },
        }
    };
    if valuation.usdc_value < BAD_DEBT_TIER_MINIMUM_VALUE_USDC {
        return TierOffer::Skipped;
    }
    TierOffer::Priced(assets, valuation)
}

/// The next step towards a lot.
#[derive(Clone, Copy, Debug, PartialEq, Eq, Structural)]
pub enum BadDebtStep {
    /// Ask the valuation contract for the price of an amount of a tier's token.
    Price(BackstopTier, i128),
    /// The lot is found.
    Lot(BadDebtLotQuote),
    /// No tier qualifies.
    NoLot,
}

/// The lot for `debt_value` out of `assets` at `price`.
pub open spec fn spec_lot(
    tier: BackstopTier,
    assets: i128,
    price: AssetValuation,
    debt_value: i128,
    target_value: i128,
) -> BadDebtLotQuote {
    let allocation = spec_allocation(assets as int, price.usdc_value as int, target_value as int);
    BadDebtLotQuote {
        committed_value: allocation.1 as i128,
        debt_value,
        tier,
        lot_amount: allocation.0 as i128,
        unfilled_target_value: allocation.2 as i128,
        target_value,
        valid_until: price.valid_until,
    }
}

/// The step that the first tier with something to say decides; `rest` where it
/// has nothing.
pub open spec fn spec_step(
    tier: BackstopTier,
    offer: TierOffer,
    debt_value: i128,
    target_value: i128,
    rest: Result<BadDebtStep, BackstopError>,
) -> Result<BadDebtStep, BackstopError> {
    match offer {
        TierOffer::Failed(error) => Err(error),
        TierOffer::Unpriced(amount) => Ok(BadDebtStep::Price(tier, amount)),
        TierOffer::Priced(assets, price) => Ok(
            BadDebtStep::Lot(spec_lot(tier, assets, price, debt_value, target_value)),
        ),
        TierOffer::Skipped => rest,
    }
}

/// The next step towards the lot for a debt: the first tier of the waterfall
/// that qualifies gives it.
pub open spec fn spec_bad_debt_step(
    debt_value: i128,
    version_matches: bool,
    balances: TierBalances,
    commitment: Option<BadDebtCommitment>,
    quotes: LpQuotes,
    now: u64,
) -> Result<BadDebtStep, BackstopError> {
    let target = spec_proportional_ceil(
        debt_value as int,
        BAD_DEBT_LOT_PREMIUM_NUMERATOR as int,
        BAD_DEBT_LOT_PREMIUM_DENOMINATOR as int,
    );
    if debt_value <= 0 {
        Err(BackstopError::BadRequest)
    } else if target is Err {
        Err(BackstopError::OverflowError)
    } else if !version_matches {
        Err(BackstopError::InvalidBackstopValuation)
    } else {
        let first = spec_tier_offer(
            BackstopTier::BlndUsdc,
            balances.blnd_usdc,
            commitment,
            quotes.blnd_usdc,
            now,
        );
        let second = spec_tier_offer(
            BackstopTier::BlndXlm,
            balances.blnd_xlm,
            commitment,
            quotes.blnd_xlm,
            now,
        );
        let third = spec_tier_offer(BackstopTier::Usdc, balances.usdc, commitment, None, now);
        let none = Ok::<BadDebtStep, BackstopError>(BadDebtStep::NoLot);
        spec_step(
            BackstopTier::BlndUsdc,
            first,
            debt_value,
            target->Ok_0,
            spec_step(
                BackstopTier::BlndXlm,
                second,
                debt_value,
                target->Ok_0,
                spec_step(BackstopTier::Usdc, third, debt_value, target->Ok_0, none),
            ),
        )
    }
}

/// Decide what one tier's offer means.
fn step_of_offer(
    e: &Env,
    tier: BackstopTier,
    offer: TierOffer,
    debt_value: i128,
    target_value: i128,
) -> (r: Result<Option<BadDebtStep>, BackstopError>)
    requires
        target_value > 0,
        offer matches TierOffer::Priced(assets, price) ==> assets > 0 && price.usdc_value > 0,
    ensures
        match r {
            Ok(Some(step)) => forall|rest: Result<BadDebtStep, BackstopError>| #[trigger]
                spec_step(tier, offer, debt_value, target_value, rest) == Ok::<
                    BadDebtStep,
                    BackstopError,
                >(step),
            Ok(None) => offer is Skipped,
            Err(error) => forall|rest: Result<BadDebtStep, BackstopError>| #[trigger]
                spec_step(tier, offer, debt_value, target_value, rest) == Err::<
                    BadDebtStep,
                    BackstopError,
                >(error),
        },
{
    match offer {
        TierOffer::Failed(error) => Err(error),
        TierOffer::Unpriced(amount) => Ok(Some(BadDebtStep::Price(tier, amount))),
        TierOffer::Skipped => Ok(None),
        TierOffer::Priced(assets, price) => {
            proof {
                law_lot_covers_the_target(
                    assets as int,
                    price.usdc_value as int,
                    target_value as int,
                );
            }
            let lot = allocate_bad_debt_tier(e, assets, price.usdc_value, target_value)?;
            Ok(
                Some(
                    BadDebtStep::Lot(
                        BadDebtLotQuote {
                            committed_value: lot.1,
                            debt_value,
                            tier,
                            lot_amount: lot.0,
                            unfilled_target_value: lot.2,
                            target_value,
                            valid_until: price.valid_until,
                        },
                    ),
                ),
            )
        },
    }
}

/// Find the first qualifying tier in the immutable loss waterfall and size the
/// lot that it gives up, or the price that has to be asked for first.
pub fn build_bad_debt_lot_quote(
    e: &Env,
    debt_value: i128,
    version_matches: bool,
    balances: &TierBalances,
    commitment: &Option<BadDebtCommitment>,
    quotes: &LpQuotes,
    now: u64,
) -> (r: Result<BadDebtStep, BackstopError>)
    ensures
        r == spec_bad_debt_step(
            debt_value,
            version_matches,
            *balances,
            *commitment,
            *quotes,
            now,
        ),
{
    if debt_value <= 0 {
        return Err(BackstopError::BadRequest);
    }
    let target_value: i128 = proportional_ceil(
        e,
        debt_value,
        BAD_DEBT_LOT_PREMIUM_NUMERATOR,
        BAD_DEBT_LOT_PREMIUM_DENOMINATOR,
    )?;
    if !version_matches {
        return Err(BackstopError::InvalidBackstopValuation);
    }
    proof {
        lemma_ceil_by_floor(
            debt_value * BAD_DEBT_LOT_PREMIUM_NUMERATOR,
            BAD_DEBT_LOT_PREMIUM_DENOMINATOR as int,
        );
    }
    let first = tier_offer(
        BackstopTier::BlndUsdc,
        &balances.blnd_usdc,
        commitment,
        quotes.blnd_usdc,
        now,
    );
    if let Some(step) = step_of_offer(
        e,
        BackstopTier::BlndUsdc,
        first,
        debt_value,
        target_value,
    )? {
        return Ok(step);
    }
    let second = tier_offer(
        BackstopTier::BlndXlm,
        &balances.blnd_xlm,
        commitment,
        quotes.blnd_xlm,
        now,
    );
    if let Some(step) = step_of_offer(
        e,
        BackstopTier::BlndXlm,
        second,
        debt_value,
        target_value,
    )? {
        return Ok(step);
    }
    let third = tier_offer(BackstopTier::Usdc, &balances.usdc, commitment, None, now);
    if let Some(step) = step_of_offer(e, BackstopTier::Usdc, third, debt_value, target_value)? {
        return Ok(step);
    }
    Ok(BadDebtStep::NoLot)
}

/// Quote the lot for a debt of a registered pool.
pub fn quote_bad_debt_lot(
    e: &Env,
    is_pool: bool,
    debt_value: i128,
    version_matches: bool,
    balances: &TierBalances,
    commitment: &Option<BadDebtCommitment>,
    quotes: &LpQuotes,
    now: u64,
) -> (r: Result<BadDebtStep, BackstopError>)
    ensures
        r == if !is_pool {
            Err(BackstopError::NotPool)
        } else {
            spec_bad_debt_step(
                debt_value,
                version_matches,
                *balances,
                *commitment,
                *quotes,
                now,
            )
        },
{
    if !is_pool {
        return Err(BackstopError::NotPool);
    }
    build_bad_debt_lot_quote(e, debt_value, version_matches, balances, commitment, quotes, now)
}

/// What reserving a lot comes to: the price that has to be asked for first, or
/// the lot with its reservation.
#[derive(Clone, Copy, Debug, PartialEq, Eq, Structural)]
pub enum CommitStep {
    Price(BackstopTier, i128),
    Committed(BadDebtLotQuote),
}

/// Reserve one single-tier lot without moving assets.
pub fn commit_bad_debt_lot(
    e: &Env,
    is_pool: bool,
    auction_id: AuctionId,
    debt_value: i128,
    version_matches: bool,
    balances: &TierBalances,
    commitment: &mut Option<BadDebtCommitment>,
    quotes: &LpQuotes,
    now: u64,
) -> (r: Result<CommitStep, BackstopError>)
    ensures
        ({
            let step = spec_bad_debt_step(
                debt_value,
                version_matches,
                *balances,
                None,
                *quotes,
                now,
            );
            if !is_pool {
                &&& r == Err::<CommitStep, BackstopError>(BackstopError::NotPool)
                &&& *final(commitment) == *old(commitment)
            } else if *old(commitment) is Some {
                &&& r == Err::<CommitStep, BackstopError>(BackstopError::BadDebtCommitmentExists)
                &&& *final(commitment) == *old(commitment)
            } else {
                match step {
                    Err(error) => {
                        &&& r == Err::<CommitStep, BackstopError>(error)
                        &&& *final(commitment) is None
                    },
                    Ok(BadDebtStep::NoLot) => {
                        &&& r == Err::<CommitStep, BackstopError>(
                            BackstopError::NoBadDebtLossCapacity,
                        )
                        &&& *final(commitment) is None
                    },
                    Ok(BadDebtStep::Price(tier, amount)) => {
                        &&& r == Ok::<CommitStep, BackstopError>(CommitStep::Price(tier, amount))
                        &&& *final(commitment) is None
                    },
                    Ok(BadDebtStep::Lot(quote)) => {
                        &&& r == Ok::<CommitStep, BackstopError>(CommitStep::Committed(quote))
                        &&& *final(commitment) == Some(BadDebtCommitment { auction_id, quote })
                    },
                }
            }
        }),
{
    if !is_pool {
        return Err(BackstopError::NotPool);
    }
    if commitment.is_some() {
        return Err(BackstopError::BadDebtCommitmentExists);
    }
    match build_bad_debt_lot_quote(
        e,
        debt_value,
        version_matches,
        balances,
        &*commitment,
        quotes,
        now,
    )? {
        BadDebtStep::NoLot => Err(BackstopError::NoBadDebtLossCapacity),
        BadDebtStep::Price(tier, amount) => Ok(CommitStep::Price(tier, amount)),
        BadDebtStep::Lot(quote) => {
            *commitment = Some(BadDebtCommitment { auction_id, quote });
            Ok(CommitStep::Committed(quote))
        },
    }
}

/// Release a commitment without changing tier accounting.
pub fn release_bad_debt_lot(
    is_pool: bool,
    auction_id: AuctionId,
    commitment: &mut Option<BadDebtCommitment>,
) -> (r: Result<(), BackstopError>)
    ensures
        if !is_pool {
            &&& r == Err::<(), BackstopError>(BackstopError::NotPool)
            &&& *final(commitment) == *old(commitment)
        } else if *old(commitment) is Some && old(commitment)->Some_0.auction_id == auction_id {
            &&& r == Ok::<(), BackstopError>(())
            &&& *final(commitment) is None
        } else {
            &&& r == Err::<(), BackstopError>(BackstopError::BadDebtCommitmentNotFound)
            &&& *final(commitment) == *old(commitment)
        },
{
    if !is_pool {
        return Err(BackstopError::NotPool);
    }
    match &*commitment {
        None => return Err(BackstopError::BadDebtCommitmentNotFound),
        Some(c) => {
            if c.auction_id != auction_id {
                return Err(BackstopError::BadDebtCommitmentNotFound);
            }
        },
    }
    *commitment = None;
    Ok(())
}

/// A lot that was found can be reserved: it takes no more of its tier than the
/// tier has available.
pub proof fn law_lots_stay_within_the_tier(
    debt_value: i128,
    version_matches: bool,
    balances: TierBalances,
    commitment: Option<BadDebtCommitment>,
    quotes: LpQuotes,
    now: u64,
)
    ensures
        spec_bad_debt_step(debt_value, version_matches, balances, commitment, quotes, now)
            matches Ok(BadDebtStep::Lot(quote)) ==> {
            let balance = match quote.tier {
                BackstopTier::BlndUsdc => balances.blnd_usdc,
                BackstopTier::BlndXlm => balances.blnd_xlm,
                BackstopTier::Usdc => balances.usdc,
            };
            &&& spec_available_assets(balance, commitment, quote.tier) matches Ok(available)
            &&& 0 < quote.lot_amount <= available
            &&& quote.committed_value + quote.unfilled_target_value >= quote.target_value
            &&& quote.target_value >= quote.debt_value
        },
{
    let step = spec_bad_debt_step(
        debt_value,
        version_matches,
        balances,
        commitment,
        quotes,
        now,
    );
    if let Ok(BadDebtStep::Lot(quote)) = step {
        let n = debt_value * BAD_DEBT_LOT_PREMIUM_NUMERATOR;
        lemma_ceil_by_floor(n, BAD_DEBT_LOT_PREMIUM_DENOMINATOR as int);
        let balance = match quote.tier {
            BackstopTier::BlndUsdc => balances.blnd_usdc,
            BackstopTier::BlndXlm => balances.blnd_xlm,
            BackstopTier::Usdc => balances.usdc,
        };
        let price = match quote.tier {
            BackstopTier::BlndUsdc => quotes.blnd_usdc,
            BackstopTier::BlndXlm => quotes.blnd_xlm,
            BackstopTier::Usdc => None,
        };
        let offer = spec_tier_offer(quote.tier, balance, commitment, price, now);
        assert(offer is Priced);
        law_lot_covers_the_target(
            offer->Priced_0 as int,
            offer->Priced_1.usdc_value as int,
            quote.target_value as int,
        );
    }
}

/// A reserved lot is taken out of what its tier has available; the other tiers have as
/// much available as before.
pub proof fn law_reserving_takes_exactly_the_lot(
    debt_value: i128,
    version_matches: bool,
    balances: TierBalances,
    quotes: LpQuotes,
    now: u64,
    auction_id: AuctionId,
    tier: BackstopTier,
)
    ensures
        spec_bad_debt_step(debt_value, version_matches, balances, None, quotes, now) matches Ok(
            BadDebtStep::Lot(quote),
        ) ==> {
            let reserved = Some(BadDebtCommitment { auction_id, quote });
            let balance = match tier {
                BackstopTier::BlndUsdc => balances.blnd_usdc,
                BackstopTier::BlndXlm => balances.blnd_xlm,
                BackstopTier::Usdc => balances.usdc,
            };
            let before = spec_available_assets(balance, None, tier);
            let after = spec_available_assets(balance, reserved, tier);
            if tier == quote.tier {
                &&& before is Ok
                &&& after == Ok::<i128, BackstopError>((before->Ok_0 - quote.lot_amount) as i128)
                &&& before->Ok_0 - quote.lot_amount >= 0
            } else {
                after == before
            }
        },
{
    law_lots_stay_within_the_tier(debt_value, version_matches, balances, None, quotes, now);
}

} // verus!
