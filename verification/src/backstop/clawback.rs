//! Clawback of an exact amount from one user's position.

use soroban_sdk::Env;
use vstd::prelude::*;

use super::pool::PoolBalance;
use super::pool_laws::lemma_no_dilution;
use super::user::{
    law_dequeue_takes_newest_first, lemma_queued_total_bounds, queue_well_formed, queued_total,
    spec_dequeue, UserBalance, Q4W,
};
use crate::emissions::distributor::checkpoint_fits;
use crate::emissions::tier_accounting::{
    checkpoint_user_ongoing_for_weight_change, spec_weight_checkpoint, PoolWeights, WeightStreams,
};
use crate::errors::BackstopError;
use crate::math::{
    ceil_div, fits_i128, fixed_mul_ceil, is_ceil_of, lemma_ceil, lemma_ceil_by_floor,
};
use crate::Address;

verus! {

/// The shares that have to go for `tokens` tokens, rounded up: all of them for
/// all tokens.
pub open spec fn spec_shares_for_tokens(pool: PoolBalance, tokens: int) -> int {
    if tokens == pool.tokens {
        pool.shares as int
    } else {
        ceil_div(tokens * pool.shares, pool.tokens as int)
    }
}

/// The shares that have to go for an amount of tokens.
pub fn shares_for_tokens(pool: &PoolBalance, tokens: i128) -> (r: Result<i128, BackstopError>)
    requires
        0 <= tokens < pool.tokens && 0 < pool.shares ==> fits_i128(tokens * pool.shares),
        tokens >= 0,
    ensures
        r == if pool.tokens <= 0 || pool.shares <= 0 || tokens > pool.tokens {
            Err(BackstopError::BalanceError)
        } else {
            Ok(spec_shares_for_tokens(*pool, tokens as int) as i128)
        },
        r matches Ok(shares) ==> shares == spec_shares_for_tokens(*pool, tokens as int),
{
    if pool.tokens <= 0 || pool.shares <= 0 || tokens > pool.tokens {
        return Err(BackstopError::BalanceError);
    }
    if tokens == pool.tokens {
        return Ok(pool.shares);
    }
    proof {
        lemma_shares_for_tokens_bounds(*pool, tokens as int);
    }
    Ok(fixed_mul_ceil(tokens, pool.shares, pool.tokens).unwrap())
}

/// The shares for an amount are never more than the pool has, are worth at least
/// the amount, and are more than none for more than nothing.
pub proof fn lemma_shares_for_tokens_bounds(pool: PoolBalance, tokens: int)
    requires
        0 < pool.tokens,
        0 < pool.shares,
        0 <= tokens <= pool.tokens,
    ensures
        0 <= spec_shares_for_tokens(pool, tokens) <= pool.shares,
        tokens * pool.shares <= spec_shares_for_tokens(pool, tokens) * pool.tokens,
        tokens > 0 ==> spec_shares_for_tokens(pool, tokens) > 0,
{
    let s = spec_shares_for_tokens(pool, tokens);
    if tokens != pool.tokens {
        let t = pool.tokens as int;
        let n = tokens * pool.shares;
        lemma_ceil_by_floor(n, t);
        assert(0 <= s <= pool.shares && (tokens > 0 ==> s > 0)) by (nonlinear_arith)
            requires
                0 <= tokens <= t,
                0 < t,
                0 < pool.shares,
                n == tokens * pool.shares,
                s * t >= n,
                (s - 1) * t < n,
        ;
    } else {
        assert(tokens * pool.shares <= s * pool.tokens) by (nonlinear_arith)
            requires
                tokens == pool.tokens,
                s == pool.shares,
        ;
    }
}

/// The active shares that go first.
pub open spec fn spec_active_burn(shares: int, to_burn: int) -> int {
    if shares <= to_burn {
        shares
    } else {
        to_burn
    }
}

/// The objection to burning shares of a user: totals beyond an `i128`, or too few shares.
pub open spec fn spec_burn_error(shares: i128, q4w: Seq<Q4W>, to_burn: i128) -> Option<
    BackstopError,
> {
    let total = shares + queued_total(q4w);
    if queued_total(q4w) > i128::MAX || total > i128::MAX {
        Some(BackstopError::OverflowError)
    } else if to_burn <= 0 || to_burn > total {
        Some(BackstopError::BalanceError)
    } else {
        None
    }
}

/// A user's queue once `to_burn` shares are gone: active shares go first, then
/// queued ones, the newest first.
pub open spec fn spec_queue_after_burn(shares: i128, q4w: Seq<Q4W>, to_burn: i128) -> Seq<Q4W> {
    let active = spec_active_burn(shares as int, to_burn as int);
    if to_burn - active > 0 {
        spec_dequeue(q4w, to_burn - active)->Some_0
    } else {
        q4w
    }
}

/// Burning takes exactly the shares that were asked for.
pub proof fn law_burn_takes_active_then_newest(shares: i128, q4w: Seq<Q4W>, to_burn: i128)
    requires
        shares >= 0,
        queue_well_formed(q4w),
        spec_burn_error(shares, q4w, to_burn) is None,
    ensures
        ({
            let active = spec_active_burn(shares as int, to_burn as int);
            let after = spec_queue_after_burn(shares, q4w, to_burn);
            &&& 0 <= active <= to_burn
            &&& active <= shares
            &&& (shares - active) + queued_total(after) == shares + queued_total(q4w) - to_burn
            &&& queued_total(q4w) - queued_total(after) == to_burn - active
            &&& (to_burn > active ==> shares == active)
            &&& queue_well_formed(after)
        }),
{
    let active = spec_active_burn(shares as int, to_burn as int);
    if to_burn - active > 0 {
        law_dequeue_takes_newest_first(q4w, to_burn - active);
    }
}

/// The sum of a queue, an overflow where an `i128` cannot hold it.
fn queue_sum(q4w: &Vec<Q4W>) -> (r: Result<i128, BackstopError>)
    requires
        queue_well_formed(q4w@),
    ensures
        r == if queued_total(q4w@) > i128::MAX {
            Err(BackstopError::OverflowError)
        } else {
            Ok(queued_total(q4w@) as i128)
        },
        r matches Ok(total) ==> total == queued_total(q4w@) && total >= 0,
{
    let mut queued: i128 = 0;
    let mut index: usize = 0;
    while index < q4w.len()
        invariant
            index <= q4w@.len(),
            queue_well_formed(q4w@),
            queued == queued_total(q4w@.take(index as int)),
            queued >= 0,
        decreases q4w@.len() - index,
    {
        proof {
            assert(q4w@.take(index + 1).drop_last() =~= q4w@.take(index as int));
            assert(q4w@.take(index + 1).last() == q4w@[index as int]);
            lemma_queued_total_bounds(q4w@, index + 1);
        }
        queued = match queued.checked_add(q4w[index].amount) {
            Some(queued) => queued,
            None => return Err(BackstopError::OverflowError),
        };
        index = index + 1;
    }
    assert(q4w@.take(index as int) =~= q4w@);
    Ok(queued)
}

/// Check that a user has the shares to burn.
fn check_burn(user: &UserBalance, shares: i128) -> (r: Result<(), BackstopError>)
    requires
        user.well_formed(),
    ensures
        r == match spec_burn_error(user.shares, user.q4w@, shares) {
            Some(error) => Err(error),
            None => Ok(()),
        },
{
    let queued: i128 = queue_sum(&user.q4w)?;
    let total: i128 = match user.shares.checked_add(queued) {
        Some(total) => total,
        None => return Err(BackstopError::OverflowError),
    };
    if shares <= 0 || shares > total {
        return Err(BackstopError::BalanceError);
    }
    Ok(())
}

/// Burn shares of a user; how many were active and how many queued.
pub fn remove_user_shares(user: &mut UserBalance, shares: i128) -> (r: Result<
    (i128, i128),
    BackstopError,
>)
    requires
        old(user).well_formed(),
    ensures
        match spec_burn_error(old(user).shares, old(user).q4w@, shares) {
            Some(error) => {
                &&& r == Err::<(i128, i128), BackstopError>(error)
                &&& *final(user) == *old(user)
            },
            None => {
                let active = spec_active_burn(old(user).shares as int, shares as int);
                &&& r == Ok::<(i128, i128), BackstopError>(
                    (active as i128, (shares - active) as i128),
                )
                &&& final(user).shares == old(user).shares - active
                &&& final(user).q4w@ == spec_queue_after_burn(
                    old(user).shares,
                    old(user).q4w@,
                    shares,
                )
            },
        },
{
    check_burn(&*user, shares)?;
    let active_shares_burned: i128 = if user.shares <= shares {
        user.shares
    } else {
        shares
    };
    let q4w_shares_burned: i128 = shares - active_shares_burned;
    if q4w_shares_burned > 0 {
        proof {
            law_dequeue_takes_newest_first(user.q4w@, q4w_shares_burned as int);
        }
        user.dequeue_shares(q4w_shares_burned)?;
    }
    user.shares = user.shares - active_shares_burned;
    Ok((active_shares_burned, q4w_shares_burned))
}

/// The first objection to a clawback: a request that cannot be meant, more tokens
/// than the pool holds, a pool without shares, a position that cannot pay, streams
/// that cannot be used, or a backstop that holds too few tokens.
pub open spec fn spec_clawback_error(
    pool: PoolBalance,
    shares: i128,
    q4w: Seq<Q4W>,
    from: Address,
    pool_address: Address,
    backstop: Address,
    counted: Result<WeightStreams, BackstopError>,
    amount: i128,
    held: i128,
) -> Option<BackstopError> {
    if amount <= 0 || from == pool_address || from == backstop {
        Some(BackstopError::BadRequest)
    } else if amount > pool.tokens || pool.shares <= 0 {
        Some(BackstopError::BalanceError)
    } else {
        let to_burn = spec_shares_for_tokens(pool, amount as int) as i128;
        match spec_burn_error(shares, q4w, to_burn) {
            Some(error) => Some(error),
            None => if counted is Err {
                Some(counted->Err_0)
            } else if held < amount {
                Some(BackstopError::BalanceError)
            } else {
                None
            },
        }
    }
}

/// The pool once `tokens` tokens and `shares` shares are gone, `queued` of them
/// out of the queue.
pub open spec fn spec_pool_after_clawback(
    pool: PoolBalance,
    tokens: int,
    shares: int,
    queued: int,
) -> PoolBalance {
    PoolBalance {
        tokens: (pool.tokens - tokens) as i128,
        shares: (pool.shares - shares) as i128,
        q4w: (pool.q4w - queued) as i128,
    }
}

/// Claw back an exact underlying amount from one user's pool-tier position.
///
/// Active shares are consumed before queued shares; queued shares are consumed
/// newest first. Where the tier earns emissions, what the user earned up to now is
/// counted before, and the pool's record counts what is active after; a clawback is never held up by a migration. `held` is the
/// backstop's own balance of the tier token.
pub fn execute_clawback(
    e: &Env,
    pool: &mut PoolBalance,
    user: &mut UserBalance,
    streams: &mut WeightStreams,
    weights: &mut PoolWeights,
    from: Address,
    pool_address: Address,
    backstop: Address,
    emission_eligible: bool,
    amount: i128,
    held: i128,
    now: u64,
) -> (r: Result<(i128, i128), BackstopError>)
    requires
        checkpoint_fits(old(streams).user, *old(pool)),
        old(pool).well_formed(),
        old(user).well_formed(),
        from != pool_address && from != backstop && 0 < amount < old(pool).tokens && 0 < old(
            pool,
        ).shares ==> fits_i128(amount * old(pool).shares),
        emission_eligible && spec_clawback_error(
            *old(pool),
            old(user).shares,
            old(user).q4w@,
            from,
            pool_address,
            backstop,
            spec_weight_checkpoint(
                Ok(true),
                *old(streams),
                *old(pool),
                old(user).shares,
                now,
            ),
            amount,
            held,
        ) is None ==> ({
            let shares = spec_shares_for_tokens(*old(pool), amount as int);
            let active = spec_active_burn(old(user).shares as int, shares);
            old(weights).with_tier(
                spec_pool_after_clawback(*old(pool), amount as int, shares, shares - active),
            ).fits()
        }),
    ensures
        r matches Ok((active, queued)) ==> {
            &&& from != pool_address
            &&& from != backstop
            &&& 0 < amount <= old(pool).tokens
            &&& amount <= held
            &&& is_ceil_of(active + queued, amount * old(pool).shares, old(pool).tokens as int)
            &&& 0 <= active <= old(user).shares
            &&& queued >= 0
            &&& queued > 0 ==> active == old(user).shares
            &&& final(pool).tokens == old(pool).tokens - amount
            &&& final(pool).shares == old(pool).shares - active - queued
            &&& final(pool).q4w == old(pool).q4w - queued
            &&& final(user).shares == old(user).shares - active
            &&& queued_total(final(user).q4w@) == queued_total(old(user).q4w@) - queued
        },
        r is Err ==> *final(pool) == *old(pool) && *final(user) == *old(user) && *final(streams)
            == *old(streams) && *final(weights) == *old(weights),
        ({
            let counted = spec_weight_checkpoint(
                Ok(emission_eligible),
                *old(streams),
                *old(pool),
                old(user).shares,
                now,
            );
            match spec_clawback_error(
                *old(pool),
                old(user).shares,
                old(user).q4w@,
                from,
                pool_address,
                backstop,
                counted,
                amount,
                held,
            ) {
                Some(error) => r == Err::<(i128, i128), BackstopError>(error),
                None => {
                    let shares = spec_shares_for_tokens(*old(pool), amount as int);
                    let active = spec_active_burn(old(user).shares as int, shares);
                    let after = spec_pool_after_clawback(
                        *old(pool),
                        amount as int,
                        shares,
                        shares - active,
                    );
                    match old(weights).after_change(after, emission_eligible) {
                        Err(error) => r == Err::<(i128, i128), BackstopError>(error),
                        Ok(current) => {
                            &&& r == Ok::<(i128, i128), BackstopError>(
                                (active as i128, (shares - active) as i128),
                            )
                            &&& *final(pool) == after
                            &&& final(user).shares == old(user).shares - active
                            &&& final(user).q4w@ == spec_queue_after_burn(
                                old(user).shares,
                                old(user).q4w@,
                                shares as i128,
                            )
                            &&& *final(streams) == counted->Ok_0
                            &&& *final(weights) == current
                        },
                    }
                },
            }
        }),
{
    if amount <= 0 || from == pool_address || from == backstop {
        return Err(BackstopError::BadRequest);
    }
    if amount > pool.tokens {
        return Err(BackstopError::BalanceError);
    }
    let shares_to_burn: i128 = shares_for_tokens(&*pool, amount)?;
    proof {
        lemma_shares_for_tokens_bounds(*pool, amount as int);
    }
    if shares_to_burn <= 0 {
        return Err(BackstopError::BalanceError);
    }
    check_burn(&*user, shares_to_burn)?;
    let counted = checkpoint_user_ongoing_for_weight_change(
        e,
        Ok(emission_eligible),
        &*streams,
        &*pool,
        user.shares,
        now,
    )?;
    if held < amount {
        return Err(BackstopError::BalanceError);
    }
    let active_burn: i128 = if user.shares <= shares_to_burn {
        user.shares
    } else {
        shares_to_burn
    };
    let after = PoolBalance {
        shares: pool.shares - shares_to_burn,
        tokens: pool.tokens - amount,
        q4w: pool.q4w - (shares_to_burn - active_burn),
    };
    let current = weights.changed(&after, emission_eligible)?;
    proof {
        law_burn_takes_active_then_newest(user.shares, user.q4w@, shares_to_burn);
        law_clawbacks_burn_the_fewest_shares(*pool, amount as int);
    }
    let burned: (i128, i128) = remove_user_shares(user, shares_to_burn)?;
    *pool = after;
    *streams = counted;
    *weights = current;
    Ok(burned)
}

/// Check that the token contract took exactly the amount.
pub fn check_clawback(held_before: i128, held_after: i128, amount: i128) -> (r: Result<
    (),
    BackstopError,
>)
    ensures
        r == if !fits_i128(held_before - amount) {
            Err(BackstopError::OverflowError)
        } else if held_after != held_before - amount {
            Err(BackstopError::BalanceError)
        } else {
            Ok(())
        },
{
    match held_before.checked_sub(amount) {
        None => Err(BackstopError::OverflowError),
        Some(expected) => if held_after != expected {
            Err(BackstopError::BalanceError)
        } else {
            Ok(())
        },
    }
}

/// A clawback burns the fewest shares that stand for the tokens taken.
pub proof fn law_clawbacks_burn_the_fewest_shares(pool: PoolBalance, amount: int)
    requires
        pool.well_formed(),
        0 < amount <= pool.tokens,
    ensures
        is_ceil_of(
            spec_shares_for_tokens(pool, amount),
            amount * pool.shares,
            pool.tokens as int,
        ),
{
    if amount == pool.tokens {
        assert(amount * pool.shares == pool.shares * pool.tokens) by (nonlinear_arith)
            requires
                amount == pool.tokens,
        ;
    } else {
        lemma_ceil(amount * pool.shares, pool.tokens as int);
    }
}

/// A clawback never makes the shares of the others worth less.
pub proof fn law_clawbacks_do_not_dilute(pool: PoolBalance, amount: int, queued: int, shares: int)
    requires
        pool.well_formed(),
        0 < pool.shares,
        0 < amount <= pool.tokens,
        0 <= queued <= pool.q4w,
        0 <= shares <= pool.shares - spec_shares_for_tokens(pool, amount),
    ensures
        pool.tokens_for(shares) <= spec_pool_after_clawback(
            pool,
            amount,
            spec_shares_for_tokens(pool, amount),
            queued,
        ).tokens_for(shares),
{
    let burned = spec_shares_for_tokens(pool, amount);
    let after = spec_pool_after_clawback(pool, amount, burned, queued);
    lemma_shares_for_tokens_bounds(pool, amount);
    assert(pool.tokens * (pool.shares - burned) <= (pool.tokens - amount) * pool.shares)
        by (nonlinear_arith)
        requires
            amount * pool.shares <= burned * pool.tokens,
    ;
    lemma_no_dilution(pool, after, shares);
}

} // verus!
