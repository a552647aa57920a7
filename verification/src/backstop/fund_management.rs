//! Draws on a tier and donations to it.

use vstd::prelude::*;

use super::pool::{BackstopAsset, PoolBalance};
use crate::constants::{USDC_BUYBACK_HAIRCUT_DENOMINATOR, USDC_BUYBACK_HAIRCUT_NUMERATOR};
use crate::contract::require_nonnegative;
use crate::emissions::tier_accounting::PoolWeights;
use crate::errors::BackstopError;
use crate::math::{fits_i128, lemma_quotient_bounds};
use crate::Address;

verus! {

/// What a donation came to.
#[derive(Clone, Copy, Debug, PartialEq, Eq, Structural)]
pub struct DonationResult {
    pub credited: i128,
    pub buyback: i128,
    pub pending_buyback: i128,
}

/// The first objection to a draw: a negative amount, a weight that may not change,
/// or too few tokens.
pub open spec fn spec_draw_error(
    pool: PoolBalance,
    change: Result<bool, BackstopError>,
    amount: i128,
) -> Option<BackstopError> {
    if amount < 0 {
        Some(BackstopError::NegativeAmountError)
    } else if amount > 0 && change is Err {
        Some(change->Err_0)
    } else if amount > 0 && pool.lacks(amount as int, 0) {
        Some(BackstopError::InsufficientFunds)
    } else {
        None
    }
}

/// Perform a draw from a pool's backstop. A draw of nothing changes nothing. `change`
/// says whether the tier earns emissions, or why its weight may not change. Where it
/// earns them, the pool's record counts what is active after.
pub fn execute_draw(
    pool: &mut PoolBalance,
    weights: &mut PoolWeights,
    change: Result<bool, BackstopError>,
    amount: i128,
) -> (r: Result<(), BackstopError>)
    requires
        0 < amount <= old(pool).tokens && change == Ok::<bool, BackstopError>(true) ==> old(
            weights,
        ).with_tier(old(pool).after_withdraw(amount as int, 0)).fits(),
    ensures
        r is Ok ==> {
            &&& amount >= 0
            &&& amount > 0 ==> amount <= old(pool).tokens
            &&& final(pool).tokens == old(pool).tokens - amount
            &&& final(pool).shares == old(pool).shares
            &&& final(pool).q4w == old(pool).q4w
        },
        r is Err ==> *final(pool) == *old(pool) && *final(weights) == *old(weights),
        match spec_draw_error(*old(pool), change, amount) {
            Some(error) => r == Err::<(), BackstopError>(error),
            None => if amount == 0 {
                &&& r == Ok::<(), BackstopError>(())
                &&& *final(pool) == *old(pool)
                &&& *final(weights) == *old(weights)
            } else {
                let after = old(pool).after_withdraw(amount as int, 0);
                match old(weights).after_change(after, change->Ok_0) {
                    Err(error) => r == Err::<(), BackstopError>(error),
                    Ok(current) => {
                        &&& r == Ok::<(), BackstopError>(())
                        &&& *final(pool) == after
                        &&& *final(weights) == current
                    },
                }
            },
        },
{
    require_nonnegative(amount)?;
    if amount == 0 {
        return Ok(());
    }
    let emission_eligible: bool = change?;
    let mut after: PoolBalance = *pool;
    after.withdraw(amount, 0)?;
    let current = weights.changed(&after, emission_eligible)?;
    *pool = after;
    *weights = current;
    Ok(())
}

/// Whether a donation of this asset keeps back a haircut for the buyback.
pub open spec fn has_haircut(asset: BackstopAsset) -> bool {
    asset == BackstopAsset::Usdc || asset == BackstopAsset::Xlm
}

/// The part of a donation that is kept back: one percent, counting the fraction
/// that earlier donations left over.
pub open spec fn spec_haircut(amount: int, carry: int) -> int {
    (amount * USDC_BUYBACK_HAIRCUT_NUMERATOR + carry) / USDC_BUYBACK_HAIRCUT_DENOMINATOR as int
}

/// The fraction that the haircut leaves over, in hundredths.
pub open spec fn spec_next_carry(amount: int, carry: int) -> int {
    (amount * USDC_BUYBACK_HAIRCUT_NUMERATOR + carry) % USDC_BUYBACK_HAIRCUT_DENOMINATOR as int
}

/// A donation's haircut with its carry is one percent to the last hundredth, the
/// carry stays a fraction, and haircut and credit make up the donation.
pub proof fn law_haircut_is_exactly_one_percent(amount: int, carry: int)
    requires
        amount >= 0,
        0 <= carry < USDC_BUYBACK_HAIRCUT_DENOMINATOR,
    ensures
        100 * spec_haircut(amount, carry) + spec_next_carry(amount, carry) == amount + carry,
        0 <= spec_next_carry(amount, carry) < USDC_BUYBACK_HAIRCUT_DENOMINATOR,
        0 <= spec_haircut(amount, carry) <= amount,
{
    lemma_quotient_bounds(amount + carry, 100);
}

/// The haircut and the carry that a sequence of donations comes to.
pub open spec fn haircut_run(amounts: Seq<int>, carry: int) -> (int, int)
    decreases amounts.len(),
{
    if amounts.len() == 0 {
        (0, carry)
    } else {
        let (before, kept) = haircut_run(amounts.drop_last(), carry);
        (before + spec_haircut(amounts.last(), kept), spec_next_carry(amounts.last(), kept))
    }
}

/// The sum of a sequence of donations.
pub open spec fn amount_sum(amounts: Seq<int>) -> int
    decreases amounts.len(),
{
    if amounts.len() == 0 {
        0
    } else {
        amount_sum(amounts.drop_last()) + amounts.last()
    }
}

/// However a sum is split into donations, the same is kept back of it.
pub proof fn law_haircut_does_not_depend_on_the_split(amounts: Seq<int>, carry: int)
    requires
        forall|i: int| 0 <= i < amounts.len() ==> #[trigger] amounts[i] >= 0,
        0 <= carry < USDC_BUYBACK_HAIRCUT_DENOMINATOR,
    ensures
        haircut_run(amounts, carry) == (
            spec_haircut(amount_sum(amounts), carry),
            spec_next_carry(amount_sum(amounts), carry),
        ),
        amount_sum(amounts) >= 0,
    decreases amounts.len(),
{
    if amounts.len() == 0 {
        law_haircut_is_exactly_one_percent(0, carry);
    } else {
        let init = amounts.drop_last();
        assert(forall|i: int| 0 <= i < init.len() ==> #[trigger] init[i] == amounts[i]);
        assert(amounts.last() == amounts[amounts.len() - 1]);
        law_haircut_does_not_depend_on_the_split(init, carry);
        let (before, kept) = haircut_run(init, carry);
        law_haircut_is_exactly_one_percent(amount_sum(init), carry);
        law_haircut_is_exactly_one_percent(amounts.last(), kept);
        law_haircut_is_exactly_one_percent(amount_sum(amounts), carry);
    }
}

/// The first objection to a donation: a negative amount, a donor that is the pool
/// or the backstop itself, a weight that may not change, a pool that is not
/// registered, or an overflow of the haircut's accounting.
pub open spec fn spec_donate_error(
    from: Address,
    pool_address: Address,
    backstop: Address,
    change: Result<bool, BackstopError>,
    registration: Result<(), BackstopError>,
    asset: BackstopAsset,
    amount: i128,
    carry: i128,
    pending: i128,
) -> Option<BackstopError> {
    if amount < 0 {
        Some(BackstopError::NegativeAmountError)
    } else if from == pool_address || from == backstop {
        Some(BackstopError::BadRequest)
    } else if change is Err {
        Some(change->Err_0)
    } else if registration is Err {
        Some(registration->Err_0)
    } else if has_haircut(asset) && (!fits_i128(
        amount * USDC_BUYBACK_HAIRCUT_NUMERATOR + carry,
    ) || !fits_i128(pending + spec_haircut(amount as int, carry as int))) {
        Some(BackstopError::OverflowError)
    } else {
        None
    }
}

/// The part of a donation that the tier is credited with.
pub open spec fn spec_credited(asset: BackstopAsset, amount: int, carry: int) -> int {
    if has_haircut(asset) {
        amount - spec_haircut(amount, carry)
    } else {
        amount
    }
}

/// Perform a donation to one tier of a pool's backstop. `change` says whether the tier
/// earns emissions, or why its weight may not change; `registration` is the outcome
/// of the pool's registration check; `carry` is the fraction that the
/// pool's earlier donations to the tier left over, `pending` what is kept back
/// of the asset so far. Where the tier earns emissions, the pool's record counts what
/// is active after.
pub fn execute_donate(
    pool: &mut PoolBalance,
    weights: &mut PoolWeights,
    from: Address,
    pool_address: Address,
    backstop: Address,
    change: Result<bool, BackstopError>,
    registration: Result<(), BackstopError>,
    asset: BackstopAsset,
    amount: i128,
    carry: &mut i128,
    pending: &mut i128,
) -> (r: Result<DonationResult, BackstopError>)
    requires
        0 <= *old(carry) < USDC_BUYBACK_HAIRCUT_DENOMINATOR,
        spec_donate_error(
            from,
            pool_address,
            backstop,
            change,
            registration,
            asset,
            amount,
            *old(carry),
            *old(pending),
        ) is None ==> {
            let credited = spec_credited(asset, amount as int, *old(carry) as int);
            &&& fits_i128(old(pool).tokens + credited)
            &&& change->Ok_0 ==> old(weights).with_tier(
                old(pool).after_deposit(credited, 0),
            ).fits()
        },
    ensures
        r matches Ok(result) ==> {
            &&& amount >= 0
            &&& from != pool_address
            &&& from != backstop
            &&& result.credited + result.buyback == amount
            &&& final(pool).tokens == old(pool).tokens + result.credited
            &&& final(pool).shares == old(pool).shares
            &&& final(pool).q4w == old(pool).q4w
            &&& *final(pending) == *old(pending) + result.buyback
            &&& if asset == BackstopAsset::Usdc || asset == BackstopAsset::Xlm {
                &&& 100 * result.buyback + *final(carry) == amount + *old(carry)
                &&& result.pending_buyback == *final(pending)
            } else {
                result.buyback == 0 && *final(carry) == *old(carry)
            }
        },
        r is Err ==> *final(pool) == *old(pool) && *final(weights) == *old(weights)
            && *final(carry) == *old(carry) && *final(pending) == *old(pending),
        0 <= *final(carry) < USDC_BUYBACK_HAIRCUT_DENOMINATOR,
        match spec_donate_error(
            from,
            pool_address,
            backstop,
            change,
            registration,
            asset,
            amount,
            *old(carry),
            *old(pending),
        ) {
            Some(error) => r == Err::<DonationResult, BackstopError>(error),
            None => {
                let credited = spec_credited(asset, amount as int, *old(carry) as int);
                let after = old(pool).after_deposit(credited, 0);
                match old(weights).after_change(after, change->Ok_0) {
                    Err(error) => r == Err::<DonationResult, BackstopError>(error),
                    Ok(current) => {
                        &&& *final(pool) == after
                        &&& *final(weights) == current
                        &&& if has_haircut(asset) {
                            let haircut = spec_haircut(amount as int, *old(carry) as int);
                            &&& *final(carry) == spec_next_carry(
                                amount as int,
                                *old(carry) as int,
                            )
                            &&& *final(pending) == *old(pending) + haircut
                            &&& r == Ok::<DonationResult, BackstopError>(
                                DonationResult {
                                    credited: credited as i128,
                                    buyback: haircut as i128,
                                    pending_buyback: (*old(pending) + haircut) as i128,
                                },
                            )
                        } else {
                            &&& *final(carry) == *old(carry)
                            &&& *final(pending) == *old(pending)
                            &&& r == Ok::<DonationResult, BackstopError>(
                                DonationResult { credited: amount, buyback: 0, pending_buyback: 0 },
                            )
                        }
                    },
                }
            },
        },
{
    require_nonnegative(amount)?;
    if from == pool_address || from == backstop {
        return Err(BackstopError::BadRequest);
    }
    let emission_eligible: bool = change?;
    registration?;
    proof {
        law_haircut_is_exactly_one_percent(amount as int, *carry as int);
    }
    let mut next_carry: i128 = *carry;
    let mut next_pending: i128 = *pending;
    let result = if matches!(asset, BackstopAsset::Usdc | BackstopAsset::Xlm) {
        let haircut_numerator: i128 = match amount.checked_mul(USDC_BUYBACK_HAIRCUT_NUMERATOR) {
            None => return Err(BackstopError::OverflowError),
            Some(value) => match value.checked_add(*carry) {
                None => return Err(BackstopError::OverflowError),
                Some(numerator) => numerator,
            },
        };
        let buyback: i128 = haircut_numerator / USDC_BUYBACK_HAIRCUT_DENOMINATOR;
        next_carry = haircut_numerator % USDC_BUYBACK_HAIRCUT_DENOMINATOR;
        let credited: i128 = amount - buyback;
        next_pending = match pending.checked_add(buyback) {
            None => return Err(BackstopError::OverflowError),
            Some(sum) => sum,
        };
        DonationResult { credited, buyback, pending_buyback: next_pending }
    } else {
        DonationResult { credited: amount, buyback: 0, pending_buyback: 0 }
    };
    let mut after: PoolBalance = *pool;
    after.deposit(result.credited, 0);
    let current = weights.changed(&after, emission_eligible)?;
    *pool = after;
    *weights = current;
    *carry = next_carry;
    *pending = next_pending;
    Ok(result)
}

} // verus!
