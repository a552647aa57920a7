//! Deposits into one backstop tier.

use soroban_sdk::Env;
use vstd::prelude::*;

use super::pool::PoolBalance;
use super::share_laws::{buys, law_shares_are_sold_at_their_worth};
use super::user::UserBalance;
use crate::contract::require_nonnegative;
use crate::emissions::distributor::checkpoint_fits;
use crate::emissions::tier_accounting::{
    checkpoint_user_ongoing_for_weight_change, spec_weight_checkpoint, PoolWeights, WeightStreams,
};
use crate::errors::BackstopError;
use crate::math::fits_i128;
use crate::Address;

verus! {

/// The first objection to a deposit: a negative amount, a depositor that is the
/// pool or the backstop itself, a pool that is not registered, a weight that may not
/// change or streams that cannot be used, or an amount that no share stands for.
pub open spec fn spec_deposit_error(
    pool: PoolBalance,
    from: Address,
    pool_address: Address,
    backstop: Address,
    registration: Result<(), BackstopError>,
    counted: Result<WeightStreams, BackstopError>,
    amount: i128,
) -> Option<BackstopError> {
    if amount < 0 {
        Some(BackstopError::NegativeAmountError)
    } else if from == pool_address || from == backstop {
        Some(BackstopError::BadRequest)
    } else if registration is Err {
        Some(registration->Err_0)
    } else if counted is Err {
        Some(counted->Err_0)
    } else if pool.shares_for(amount as int) == 0 {
        Some(BackstopError::InvalidShareMintAmount)
    } else {
        None
    }
}

/// Whether crediting tokens of one tier to a user's shares stays within an `i128`.
pub open spec fn credit_fits(pool: PoolBalance, user_shares: int, tokens: int) -> bool {
    &&& pool.shares_for_fits(tokens)
    &&& pool.shares_for(tokens) != 0 ==> {
        &&& fits_i128(pool.tokens + tokens)
        &&& fits_i128(pool.shares + pool.shares_for(tokens))
        &&& fits_i128(user_shares + pool.shares_for(tokens))
    }
}

/// Add tokens to one tier and return the shares that they bought: an amount that no
/// share stands for is refused.
pub fn buy_shares(pool: &mut PoolBalance, tokens: i128) -> (r: Result<i128, BackstopError>)
    requires
        old(pool).shares_for_fits(tokens as int),
        old(pool).shares_for(tokens as int) != 0 ==> {
            &&& fits_i128(old(pool).tokens + tokens)
            &&& fits_i128(old(pool).shares + old(pool).shares_for(tokens as int))
        },
    ensures
        ({
            let shares = old(pool).shares_for(tokens as int);
            if shares == 0 {
                &&& r == Err::<i128, BackstopError>(BackstopError::InvalidShareMintAmount)
                &&& *final(pool) == *old(pool)
            } else {
                &&& r == Ok::<i128, BackstopError>(shares as i128)
                &&& r->Ok_0 == shares
                &&& *final(pool) == old(pool).after_deposit(tokens as int, shares)
            }
        }),
{
    let shares: i128 = pool.convert_to_shares(tokens);
    if shares == 0 {
        return Err(BackstopError::InvalidShareMintAmount);
    }
    pool.deposit(tokens, shares);
    Ok(shares)
}

/// Credit tokens of one tier to a user and return the shares that they bought: an
/// amount that no share stands for is refused.
pub fn credit_tier_shares(pool: &mut PoolBalance, user: &mut UserBalance, tokens: i128) -> (r:
    Result<i128, BackstopError>)
    requires
        credit_fits(*old(pool), old(user).shares as int, tokens as int),
    ensures
        r matches Ok(shares) ==> {
            &&& shares != 0
            &&& old(pool).well_formed() ==> buys(*old(pool), tokens as int, shares as int)
            &&& final(pool).tokens == old(pool).tokens + tokens
            &&& final(pool).shares == old(pool).shares + shares
            &&& final(pool).q4w == old(pool).q4w
            &&& final(user).shares == old(user).shares + shares
            &&& final(user).q4w@ == old(user).q4w@
        },
        ({
            let shares = old(pool).shares_for(tokens as int);
            if shares == 0 {
                &&& r == Err::<i128, BackstopError>(BackstopError::InvalidShareMintAmount)
                &&& *final(pool) == *old(pool)
                &&& *final(user) == *old(user)
            } else {
                &&& r == Ok::<i128, BackstopError>(shares as i128)
                &&& *final(pool) == old(pool).after_deposit(tokens as int, shares)
                &&& final(user).shares == old(user).shares + shares
                &&& final(user).q4w@ == old(user).q4w@
            }
        }),
{
    proof {
        if pool.well_formed() {
            law_shares_are_sold_at_their_worth(*pool, tokens as int);
        }
    }
    let shares: i128 = buy_shares(pool, tokens)?;
    user.add_shares(shares);
    Ok(shares)
}

/// Deposit tokens of one tier and return the shares that they bought. What the user
/// earned up to now is counted before the shares are added, and the pool's record
/// counts what is active after. `registration` is the
/// outcome of the pool's registration check; `change` says whether the tier earns
/// emissions, or why its weight may not change.
pub fn execute_deposit(
    e: &Env,
    pool: &mut PoolBalance,
    user: &mut UserBalance,
    streams: &mut WeightStreams,
    weights: &mut PoolWeights,
    from: Address,
    pool_address: Address,
    backstop: Address,
    registration: Result<(), BackstopError>,
    change: Result<bool, BackstopError>,
    amount: i128,
    now: u64,
) -> (r: Result<i128, BackstopError>)
    requires
        checkpoint_fits(old(streams).user, *old(pool)),
        amount >= 0 && from != pool_address && from != backstop && registration is Ok
            && spec_weight_checkpoint(
            change,
            *old(streams),
            *old(pool),
            old(user).shares,
            now,
        ) is Ok ==> {
            let shares = old(pool).shares_for(amount as int);
            &&& credit_fits(*old(pool), old(user).shares as int, amount as int)
            &&& shares != 0 && change == Ok::<bool, BackstopError>(true) ==> old(
                weights,
            ).with_tier(old(pool).after_deposit(amount as int, shares)).fits()
        },
    ensures
        r matches Ok(shares) ==> {
            &&& amount >= 0
            &&& from != pool_address
            &&& from != backstop
            &&& shares != 0
            &&& old(pool).well_formed() ==> buys(*old(pool), amount as int, shares as int)
            &&& final(pool).tokens == old(pool).tokens + amount
            &&& final(pool).shares == old(pool).shares + shares
            &&& final(pool).q4w == old(pool).q4w
            &&& final(user).shares == old(user).shares + shares
            &&& final(user).q4w@ == old(user).q4w@
        },
        r is Err ==> *final(pool) == *old(pool) && *final(user) == *old(user) && *final(streams)
            == *old(streams) && *final(weights) == *old(weights),
        ({
            let counted = spec_weight_checkpoint(
                change,
                *old(streams),
                *old(pool),
                old(user).shares,
                now,
            );
            match spec_deposit_error(
                *old(pool),
                from,
                pool_address,
                backstop,
                registration,
                counted,
                amount,
            ) {
                Some(error) => r == Err::<i128, BackstopError>(error),
                None => {
                    let shares = old(pool).shares_for(amount as int);
                    let after = old(pool).after_deposit(amount as int, shares);
                    match old(weights).after_change(after, change->Ok_0) {
                        Err(error) => r == Err::<i128, BackstopError>(error),
                        Ok(current) => {
                            &&& r == Ok::<i128, BackstopError>(shares as i128)
                            &&& *final(pool) == after
                            &&& final(user).shares == old(user).shares + shares
                            &&& final(user).q4w@ == old(user).q4w@
                            &&& *final(streams) == counted->Ok_0
                            &&& *final(weights) == current
                        },
                    }
                },
            }
        }),
{
    proof {
        if pool.well_formed() {
            law_shares_are_sold_at_their_worth(*pool, amount as int);
        }
    }
    require_nonnegative(amount)?;
    if from == pool_address || from == backstop {
        return Err(BackstopError::BadRequest);
    }
    registration?;
    let counted = checkpoint_user_ongoing_for_weight_change(
        e,
        change,
        &*streams,
        &*pool,
        user.shares,
        now,
    )?;
    let emission_eligible: bool = change?;
    let mut after: PoolBalance = *pool;
    let shares: i128 = buy_shares(&mut after, amount)?;
    let current = weights.changed(&after, emission_eligible)?;
    *pool = after;
    user.add_shares(shares);
    *streams = counted;
    *weights = current;
    Ok(shares)
}

} // verus!
