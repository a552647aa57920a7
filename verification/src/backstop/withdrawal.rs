//! The withdrawal queue of one backstop tier.

use soroban_sdk::Env;
use vstd::prelude::*;

use super::pool::{lemma_tokens_for_bounds, PoolBalance};
use super::share_laws::{law_shares_redeem_what_stands_behind_them, stands_behind};
use super::user::{
    dequeue, law_dequeue_takes_newest_first, law_matured_shares_are_the_expired_front,
    law_withdraw_takes_oldest_first, lemma_matured_bounds, matured, queue_well_formed, queued_total, spec_dequeue, spec_matured, spec_withdraw, withdraw,
    UserBalance, Q4W,
};
use crate::constants::{MAX_Q4W_SIZE, Q4W_LOCK_TIME};
use crate::contract::require_nonnegative;
use crate::emissions::distributor::checkpoint_fits;
use crate::emissions::tier_accounting::{
    checkpoint_user_ongoing_for_weight_change, spec_weight_checkpoint, PoolWeights, WeightStreams,
};
use crate::errors::BackstopError;
use crate::math::{fits_i128, lemma_quotient_bounds};

verus! {

/// How many entries a user's queues in one pool have, tier by tier.
#[derive(Clone, Copy, Debug, PartialEq, Eq, Structural)]
pub struct QueueLengths {
    pub blnd_usdc: u32,
    pub blnd_xlm: u32,
    pub usdc: u32,
}

impl QueueLengths {
    /// The entries of all tiers together.
    pub open spec fn sum(self) -> int {
        self.blnd_usdc + self.blnd_xlm + self.usdc
    }
}

/// Require room for one more entry: the limit is on all tiers of a pool together.
pub fn require_q4w_entry_capacity(lengths: &QueueLengths) -> (r: Result<(), BackstopError>)
    ensures
        r == if lengths.sum() >= MAX_Q4W_SIZE {
            Err(BackstopError::TooManyQ4WEntries)
        } else {
            Ok(())
        },
{
    let entries: u64 = lengths.blnd_usdc as u64 + lengths.blnd_xlm as u64 + lengths.usdc as u64;
    if entries >= MAX_Q4W_SIZE as u64 {
        return Err(BackstopError::TooManyQ4WEntries);
    }
    Ok(())
}

/// The first objection to queueing: a negative amount, full queues, or too few shares.
pub open spec fn spec_queue_error(shares: i128, lengths: QueueLengths, amount: i128) -> Option<
    BackstopError,
> {
    if amount < 0 {
        Some(BackstopError::NegativeAmountError)
    } else if lengths.sum() >= MAX_Q4W_SIZE {
        Some(BackstopError::TooManyQ4WEntries)
    } else if shares < amount {
        Some(BackstopError::BalanceError)
    } else {
        None
    }
}

/// Perform a queue for withdrawal from one backstop tier. What the user earned up to
/// now is counted before the shares leave the active ones, and the pool's record counts
/// what is active after; `change` says whether the tier earns emissions, or why its
/// weight may not change.
pub fn execute_queue_withdrawal(
    e: &Env,
    pool: &mut PoolBalance,
    user: &mut UserBalance,
    streams: &mut WeightStreams,
    weights: &mut PoolWeights,
    lengths: &QueueLengths,
    change: Result<bool, BackstopError>,
    amount: i128,
    now: u64,
) -> (r: Result<Q4W, BackstopError>)
    requires
        checkpoint_fits(old(streams).user, *old(pool)),
        now + Q4W_LOCK_TIME <= u64::MAX,
        spec_queue_error(old(user).shares, *lengths, amount) is None && spec_weight_checkpoint(
            change,
            *old(streams),
            *old(pool),
            old(user).shares,
            now,
        ) is Ok ==> {
            &&& fits_i128(old(pool).q4w + amount)
            &&& change == Ok::<bool, BackstopError>(true) ==> old(weights).with_tier(
                old(pool).after_queue(amount as int),
            ).fits()
        },
    ensures
        r matches Ok(entry) ==> {
            &&& 0 <= entry.amount <= old(user).shares
            &&& entry.amount == amount
            &&& entry.exp == now + 1_468_800
            &&& lengths.blnd_usdc + lengths.blnd_xlm + lengths.usdc < 20
            &&& final(pool).q4w == old(pool).q4w + entry.amount
            &&& final(pool).shares == old(pool).shares
            &&& final(pool).tokens == old(pool).tokens
            &&& final(user).shares == old(user).shares - entry.amount
            &&& final(user).q4w@ == old(user).q4w@.push(entry)
        },
        r is Err ==> *final(pool) == *old(pool) && *final(user) == *old(user) && *final(streams)
            == *old(streams) && *final(weights) == *old(weights),
        match spec_queue_error(old(user).shares, *lengths, amount) {
            Some(error) => r == Err::<Q4W, BackstopError>(error),
            None => match spec_weight_checkpoint(
                change,
                *old(streams),
                *old(pool),
                old(user).shares,
                now,
            ) {
                Err(error) => r == Err::<Q4W, BackstopError>(error),
                Ok(counted) => {
                    let entry = Q4W { amount, exp: (now + Q4W_LOCK_TIME) as u64 };
                    let after = old(pool).after_queue(amount as int);
                    match old(weights).after_change(after, change->Ok_0) {
                        Err(error) => r == Err::<Q4W, BackstopError>(error),
                        Ok(current) => {
                            &&& r == Ok::<Q4W, BackstopError>(entry)
                            &&& *final(pool) == after
                            &&& final(user).shares == old(user).shares - amount
                            &&& final(user).q4w@ == old(user).q4w@.push(entry)
                            &&& *final(streams) == counted
                            &&& *final(weights) == current
                        },
                    }
                },
            },
        },
{
    require_nonnegative(amount)?;
    require_q4w_entry_capacity(lengths)?;
    if user.shares < amount {
        return Err(BackstopError::BalanceError);
    }
    let counted = checkpoint_user_ongoing_for_weight_change(
        e,
        change,
        &*streams,
        &*pool,
        user.shares,
        now,
    )?;
    let emission_eligible: bool = change?;
    let mut after: PoolBalance = *pool;
    after.queue_for_withdraw(amount);
    let current = weights.changed(&after, emission_eligible)?;
    user.queue_shares_for_withdrawal(amount, now)?;
    *pool = after;
    *streams = counted;
    *weights = current;
    Ok(Q4W { amount, exp: now + Q4W_LOCK_TIME })
}

/// Queue every active share of a user.
pub fn execute_force_queue_withdrawal(
    e: &Env,
    pool: &mut PoolBalance,
    user: &mut UserBalance,
    streams: &mut WeightStreams,
    weights: &mut PoolWeights,
    lengths: &QueueLengths,
    change: Result<bool, BackstopError>,
    now: u64,
) -> (r: Result<Q4W, BackstopError>)
    requires
        checkpoint_fits(old(streams).user, *old(pool)),
        old(user).shares >= 0,
        now + Q4W_LOCK_TIME <= u64::MAX,
        lengths.sum() < MAX_Q4W_SIZE && spec_weight_checkpoint(
            change,
            *old(streams),
            *old(pool),
            old(user).shares,
            now,
        ) is Ok ==> {
            &&& fits_i128(old(pool).q4w + old(user).shares)
            &&& change == Ok::<bool, BackstopError>(true) ==> old(weights).with_tier(
                old(pool).after_queue(old(user).shares as int),
            ).fits()
        },
    ensures
        r matches Ok(entry) ==> {
            &&& 0 <= entry.amount <= old(user).shares
            &&& entry.amount == old(user).shares
            &&& entry.exp == now + 1_468_800
            &&& lengths.blnd_usdc + lengths.blnd_xlm + lengths.usdc < 20
            &&& final(pool).q4w == old(pool).q4w + entry.amount
            &&& final(pool).shares == old(pool).shares
            &&& final(pool).tokens == old(pool).tokens
            &&& final(user).shares == old(user).shares - entry.amount
            &&& final(user).q4w@ == old(user).q4w@.push(entry)
        },
        r is Err ==> *final(pool) == *old(pool) && *final(user) == *old(user) && *final(streams)
            == *old(streams) && *final(weights) == *old(weights),
        if lengths.sum() >= MAX_Q4W_SIZE {
            r == Err::<Q4W, BackstopError>(BackstopError::TooManyQ4WEntries)
        } else {
            match spec_weight_checkpoint(
                change,
                *old(streams),
                *old(pool),
                old(user).shares,
                now,
            ) {
                Err(error) => r == Err::<Q4W, BackstopError>(error),
                Ok(counted) => {
                    let entry = Q4W {
                        amount: old(user).shares,
                        exp: (now + Q4W_LOCK_TIME) as u64,
                    };
                    let after = old(pool).after_queue(old(user).shares as int);
                    match old(weights).after_change(after, change->Ok_0) {
                        Err(error) => r == Err::<Q4W, BackstopError>(error),
                        Ok(current) => {
                            &&& r == Ok::<Q4W, BackstopError>(entry)
                            &&& *final(pool) == after
                            &&& final(user).shares == 0
                            &&& final(user).q4w@ == old(user).q4w@.push(entry)
                            &&& *final(streams) == counted
                            &&& *final(weights) == current
                        },
                    }
                },
            }
        },
{
    let amount: i128 = user.shares;
    execute_queue_withdrawal(e, pool, user, streams, weights, lengths, change, amount, now)
}

/// The first objection to taking shares back out of the queue: a negative amount,
/// too few queued shares of the user, a weight that may not change or streams that
/// cannot be used, or too few queued shares of the pool.
pub open spec fn spec_dequeue_error(
    pool: PoolBalance,
    q4w: Seq<Q4W>,
    counted: Result<WeightStreams, BackstopError>,
    amount: i128,
) -> Option<BackstopError> {
    if amount < 0 {
        Some(BackstopError::NegativeAmountError)
    } else if spec_dequeue(q4w, amount as int) is None {
        Some(BackstopError::BalanceError)
    } else if counted is Err {
        Some(counted->Err_0)
    } else if amount > pool.q4w {
        Some(BackstopError::InsufficientFunds)
    } else {
        None
    }
}

/// Dequeue a withdrawal from one backstop tier. What the user earned up to now is
/// counted before the shares are active again, and the pool's record counts what is
/// active after.
pub fn execute_dequeue_withdrawal(
    e: &Env,
    pool: &mut PoolBalance,
    user: &mut UserBalance,
    streams: &mut WeightStreams,
    weights: &mut PoolWeights,
    change: Result<bool, BackstopError>,
    amount: i128,
    now: u64,
) -> (r: Result<(), BackstopError>)
    requires
        checkpoint_fits(old(streams).user, *old(pool)),
        queue_well_formed(old(user).q4w@),
        0 <= amount <= old(pool).q4w && spec_dequeue(old(user).q4w@, amount as int) is Some
            && spec_weight_checkpoint(
            change,
            *old(streams),
            *old(pool),
            old(user).shares,
            now,
        ) is Ok ==> {
            &&& fits_i128(old(user).shares + amount)
            &&& change == Ok::<bool, BackstopError>(true) ==> old(weights).with_tier(
                old(pool).after_queue(-amount),
            ).fits()
        },
    ensures
        r is Ok ==> {
            &&& 0 <= amount <= queued_total(old(user).q4w@)
            &&& final(pool).q4w == old(pool).q4w - amount
            &&& final(pool).shares == old(pool).shares
            &&& final(pool).tokens == old(pool).tokens
            &&& final(user).shares == old(user).shares + amount
            &&& queued_total(final(user).q4w@) == queued_total(old(user).q4w@) - amount
        },
        r is Err ==> *final(pool) == *old(pool) && *final(user) == *old(user) && *final(streams)
            == *old(streams) && *final(weights) == *old(weights),
        ({
            let counted = spec_weight_checkpoint(
                change,
                *old(streams),
                *old(pool),
                old(user).shares,
                now,
            );
            match spec_dequeue_error(*old(pool), old(user).q4w@, counted, amount) {
                Some(error) => r == Err::<(), BackstopError>(error),
                None => {
                    let after = old(pool).after_queue(-amount);
                    match old(weights).after_change(after, change->Ok_0) {
                        Err(error) => r == Err::<(), BackstopError>(error),
                        Ok(current) => {
                            &&& r == Ok::<(), BackstopError>(())
                            &&& *final(pool) == after
                            &&& final(user).shares == old(user).shares + amount
                            &&& Some(final(user).q4w@) == spec_dequeue(
                                old(user).q4w@,
                                amount as int,
                            )
                            &&& *final(streams) == counted->Ok_0
                            &&& *final(weights) == current
                        },
                    }
                },
            }
        }),
{
    proof {
        if amount >= 0 {
            law_dequeue_takes_newest_first(user.q4w@, amount as int);
        }
    }
    require_nonnegative(amount)?;
    let left: Vec<Q4W> = match dequeue(&user.q4w, amount) {
        Some(left) => left,
        None => return Err(BackstopError::BalanceError),
    };
    let counted = checkpoint_user_ongoing_for_weight_change(
        e,
        change,
        &*streams,
        &*pool,
        user.shares,
        now,
    )?;
    let emission_eligible: bool = change?;
    let mut after: PoolBalance = *pool;
    after.dequeue_q4w(amount)?;
    let current = weights.changed(&after, emission_eligible)?;
    *pool = after;
    user.q4w = left;
    user.add_shares(amount);
    *streams = counted;
    *weights = current;
    Ok(())
}

/// The first objection to a withdrawal: a negative amount, bad debt on the pool,
/// too few expired shares of the user, an amount that no token stands for, a weight
/// that may not change or streams that cannot be used, or too few queued shares of
/// the pool.
pub open spec fn spec_withdraw_error(
    pool: PoolBalance,
    q4w: Seq<Q4W>,
    has_liabilities: bool,
    counted: Result<WeightStreams, BackstopError>,
    amount: i128,
    now: u64,
) -> Option<BackstopError> {
    if amount < 0 {
        Some(BackstopError::NegativeAmountError)
    } else if has_liabilities {
        Some(BackstopError::BadDebtExists)
    } else if spec_withdraw(q4w, amount as int, now) is Err {
        Some(spec_withdraw(q4w, amount as int, now)->Err_0)
    } else if pool.tokens_for(amount as int) == 0 && pool.tokens != 0 {
        Some(BackstopError::InvalidTokenWithdrawAmount)
    } else if counted is Err {
        Some(counted->Err_0)
    } else if amount > pool.q4w {
        Some(BackstopError::InsufficientFunds)
    } else {
        None
    }
}

/// Withdraw expired shares from one backstop tier and return the tokens that
/// they stand for. The pool's record counts what is active after.
pub fn execute_withdraw(
    e: &Env,
    pool: &mut PoolBalance,
    user: &mut UserBalance,
    streams: &mut WeightStreams,
    weights: &mut PoolWeights,
    has_liabilities: bool,
    change: Result<bool, BackstopError>,
    amount: i128,
    now: u64,
) -> (r: Result<i128, BackstopError>)
    requires
        checkpoint_fits(old(streams).user, *old(pool)),
        old(pool).well_formed(),
        queue_well_formed(old(user).q4w@),
        amount >= 0 && !has_liabilities && spec_withdraw(old(user).q4w@, amount as int, now) is Ok
            ==> {
            &&& old(pool).tokens_for_fits(amount as int)
            &&& amount <= old(pool).q4w && change == Ok::<bool, BackstopError>(true) ==> old(
                weights,
            ).with_tier(
                old(pool).after_withdraw(old(pool).tokens_for(amount as int), amount as int),
            ).fits()
        },
    ensures
        r matches Ok(tokens) ==> {
            &&& !has_liabilities
            &&& 0 <= amount <= queued_total(old(user).q4w@)
            &&& stands_behind(*old(pool), amount as int, tokens as int)
            &&& tokens == 0 ==> old(pool).tokens == 0
            &&& final(pool).tokens == old(pool).tokens - tokens
            &&& final(pool).shares == old(pool).shares - amount
            &&& final(pool).q4w == old(pool).q4w - amount
            &&& final(user).shares == old(user).shares
            &&& queued_total(final(user).q4w@) == queued_total(old(user).q4w@) - amount
        },
        r is Err ==> *final(pool) == *old(pool) && *final(user) == *old(user) && *final(streams)
            == *old(streams) && *final(weights) == *old(weights),
        ({
            let counted = spec_weight_checkpoint(
                change,
                *old(streams),
                *old(pool),
                old(user).shares,
                now,
            );
            match spec_withdraw_error(
                *old(pool),
                old(user).q4w@,
                has_liabilities,
                counted,
                amount,
                now,
            ) {
                Some(error) => r == Err::<i128, BackstopError>(error),
                None => {
                    let tokens = old(pool).tokens_for(amount as int);
                    let after = old(pool).after_withdraw(tokens, amount as int);
                    match old(weights).after_change(after, change->Ok_0) {
                        Err(error) => r == Err::<i128, BackstopError>(error),
                        Ok(current) => {
                            &&& r == Ok::<i128, BackstopError>(tokens as i128)
                            &&& *final(pool) == after
                            &&& final(user).shares == old(user).shares
                            &&& spec_withdraw(old(user).q4w@, amount as int, now) == Ok::<
                                Seq<Q4W>,
                                BackstopError,
                            >(final(user).q4w@)
                            &&& *final(streams) == counted->Ok_0
                            &&& *final(weights) == current
                        },
                    }
                },
            }
        }),
{
    proof {
        law_shares_redeem_what_stands_behind_them(*pool, amount as int);
        if amount >= 0 {
            law_withdraw_takes_oldest_first(user.q4w@, amount as int, now);
        }
    }
    require_nonnegative(amount)?;
    if has_liabilities {
        return Err(BackstopError::BadDebtExists);
    }
    let left: Vec<Q4W> = withdraw(&user.q4w, amount, now)?;
    let to_return: i128 = pool.convert_to_tokens(amount);
    if to_return == 0 && pool.tokens != 0 {
        return Err(BackstopError::InvalidTokenWithdrawAmount);
    }
    let counted = checkpoint_user_ongoing_for_weight_change(
        e,
        change,
        &*streams,
        &*pool,
        user.shares,
        now,
    )?;
    proof {
        if amount <= pool.q4w {
            lemma_tokens_for_bounds(*pool, amount as int);
        }
    }
    let emission_eligible: bool = change?;
    let mut after: PoolBalance = *pool;
    after.withdraw(to_return, amount)?;
    let current = weights.changed(&after, emission_eligible)?;
    *pool = after;
    user.q4w = left;
    *streams = counted;
    *weights = current;
    Ok(to_return)
}

/// Withdraw every matured queued share of a user; the shares with the tokens
/// that they stand for.
pub fn execute_force_withdrawal(
    e: &Env,
    pool: &mut PoolBalance,
    user: &mut UserBalance,
    streams: &mut WeightStreams,
    weights: &mut PoolWeights,
    has_liabilities: bool,
    change: Result<bool, BackstopError>,
    now: u64,
) -> (r: Result<(i128, i128), BackstopError>)
    requires
        checkpoint_fits(old(streams).user, *old(pool)),
        old(pool).well_formed(),
        queue_well_formed(old(user).q4w@),
        queued_total(old(user).q4w@) <= i128::MAX,
        !has_liabilities ==> {
            let shares = spec_matured(old(user).q4w@, now);
            &&& old(pool).tokens_for_fits(shares)
            &&& shares <= old(pool).q4w && change == Ok::<bool, BackstopError>(true) ==> old(
                weights,
            ).with_tier(old(pool).after_withdraw(old(pool).tokens_for(shares), shares)).fits()
        },
    ensures
        r matches Ok((shares, tokens)) ==> {
            &&& !has_liabilities
            &&& 0 <= shares <= queued_total(old(user).q4w@)
            &&& stands_behind(*old(pool), shares as int, tokens as int)
            &&& tokens == 0 ==> old(pool).tokens == 0
            &&& final(pool).tokens == old(pool).tokens - tokens
            &&& final(pool).shares == old(pool).shares - shares
            &&& final(pool).q4w == old(pool).q4w - shares
            &&& final(user).shares == old(user).shares
            &&& queued_total(final(user).q4w@) == queued_total(old(user).q4w@) - shares
        },
        r is Err ==> *final(pool) == *old(pool) && *final(user) == *old(user) && *final(streams)
            == *old(streams) && *final(weights) == *old(weights),
        ({
            let shares = spec_matured(old(user).q4w@, now);
            let counted = spec_weight_checkpoint(
                change,
                *old(streams),
                *old(pool),
                old(user).shares,
                now,
            );
            match spec_withdraw_error(
                *old(pool),
                old(user).q4w@,
                has_liabilities,
                counted,
                shares as i128,
                now,
            ) {
                Some(error) => r == Err::<(i128, i128), BackstopError>(error),
                None => {
                    let tokens = old(pool).tokens_for(shares);
                    let after = old(pool).after_withdraw(tokens, shares);
                    match old(weights).after_change(after, change->Ok_0) {
                        Err(error) => r == Err::<(i128, i128), BackstopError>(error),
                        Ok(current) => {
                            &&& r == Ok::<(i128, i128), BackstopError>(
                                (shares as i128, tokens as i128),
                            )
                            &&& *final(pool) == after
                            &&& final(user).shares == old(user).shares
                            &&& spec_withdraw(old(user).q4w@, shares, now) == Ok::<
                                Seq<Q4W>,
                                BackstopError,
                            >(final(user).q4w@)
                            &&& *final(streams) == counted->Ok_0
                            &&& *final(weights) == current
                        },
                    }
                },
            }
        }),
{
    proof {
        let matured_shares = spec_matured(user.q4w@, now);
        law_shares_redeem_what_stands_behind_them(*pool, matured_shares);
        law_matured_shares_are_the_expired_front(user.q4w@, now);
        law_withdraw_takes_oldest_first(user.q4w@, matured_shares, now);
    }
    proof {
        lemma_matured_bounds(user.q4w@, now);
    }
    let shares: i128 = matured(&user.q4w, now);
    let tokens: i128 = execute_withdraw(
        e,
        pool,
        user,
        streams,
        weights,
        has_liabilities,
        change,
        shares,
        now,
    )?;
    Ok((shares, tokens))
}

/// Queueing keeps the user's shares and raises the user's queue and the pool's by the same.
pub proof fn law_queueing_keeps_shares(
    pool: PoolBalance,
    shares: i128,
    q4w: Seq<Q4W>,
    amount: i128,
    exp: u64,
)
    requires
        0 <= amount <= shares,
        fits_i128(pool.q4w + amount),
    ensures
        ({
            let queue = q4w.push(Q4W { amount, exp });
            &&& (shares - amount) + queued_total(queue) == shares + queued_total(q4w)
            &&& queued_total(queue) - queued_total(q4w) == pool.after_queue(amount as int).q4w
                - pool.q4w
            &&& pool.after_queue(amount as int).shares == pool.shares
        }),
{
    let queue = q4w.push(Q4W { amount, exp });
    assert(queue.drop_last() =~= q4w);
}

/// Dequeueing keeps the user's shares and lowers the user's queue and the pool's by the same.
pub proof fn law_dequeueing_keeps_shares(
    pool: PoolBalance,
    shares: i128,
    q4w: Seq<Q4W>,
    amount: i128,
)
    requires
        queue_well_formed(q4w),
        0 <= amount <= pool.q4w,
        spec_dequeue(q4w, amount as int) is Some,
    ensures
        ({
            let queue = spec_dequeue(q4w, amount as int)->Some_0;
            &&& (shares + amount) + queued_total(queue) == shares + queued_total(q4w)
            &&& queued_total(queue) - queued_total(q4w) == pool.after_queue(-amount).q4w - pool.q4w
            &&& pool.after_queue(-amount).shares == pool.shares
        }),
{
    law_dequeue_takes_newest_first(q4w, amount as int);
}

/// A withdrawal takes the same shares from the user and from the pool, out of both queues.
pub proof fn law_withdrawing_burns_shares_alike(
    pool: PoolBalance,
    q4w: Seq<Q4W>,
    amount: i128,
    now: u64,
)
    requires
        pool.well_formed(),
        queue_well_formed(q4w),
        0 <= amount <= pool.q4w,
        spec_withdraw(q4w, amount as int, now) is Ok,
    ensures
        ({
            let queue = spec_withdraw(q4w, amount as int, now)->Ok_0;
            let after = pool.after_withdraw(pool.tokens_for(amount as int), amount as int);
            &&& queued_total(queue) == queued_total(q4w) - amount
            &&& after.q4w == pool.q4w - amount
            &&& after.shares == pool.shares - amount
            &&& after.well_formed()
        }),
{
    law_withdraw_takes_oldest_first(q4w, amount as int, now);
    lemma_tokens_for_bounds(pool, amount as int);
}

/// What comes out of a deposit that is queued and withdrawn at once, with no other
/// change to the pool, is no more than what went in.
pub proof fn law_deposit_and_withdrawal_create_no_tokens(pool: PoolBalance, amount: int)
    requires
        pool.well_formed(),
        amount >= 0,
        fits_i128(pool.tokens + amount),
        fits_i128(pool.shares + pool.shares_for(amount)),
        pool.shares == 0 && amount > 0 ==> pool.tokens == 0,
    ensures
        pool.after_deposit(amount, pool.shares_for(amount)).tokens_for(pool.shares_for(amount))
            <= amount,
{
    let shares = pool.shares_for(amount);
    let after = pool.after_deposit(amount, shares);
    if pool.shares > 0 {
        if pool.tokens > 0 {
            let n = amount * pool.shares;
            assert(n >= 0) by (nonlinear_arith)
                requires
                    amount >= 0,
                    pool.shares > 0,
                    n == amount * pool.shares,
            ;
            lemma_quotient_bounds(n, pool.tokens as int);
            assert(shares * pool.tokens <= amount * pool.shares);
            let s2 = pool.shares + shares;
            let t2 = pool.tokens + amount;
            let m = shares * t2;
            assert(m <= amount * s2) by (nonlinear_arith)
                requires
                    shares * pool.tokens <= amount * pool.shares,
                    m == shares * t2,
                    s2 == pool.shares + shares,
                    t2 == pool.tokens + amount,
            ;
            assert(m >= 0) by (nonlinear_arith)
                requires
                    shares >= 0,
                    t2 >= 0,
                    m == shares * t2,
            ;
            lemma_quotient_bounds(m, s2);
            let back = m / s2;
            assert(back <= amount) by (nonlinear_arith)
                requires
                    back * s2 <= m,
                    m <= amount * s2,
                    s2 > 0,
            ;
        } else {
            lemma_quotient_bounds(0, pool.shares as int);
            assert(0 * after.tokens == 0);
        }
    }
}

} // verus!
