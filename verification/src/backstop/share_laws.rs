//! What shares and tokens of a tier are worth to each other.

use vstd::prelude::*;

use super::pool::PoolBalance;
use crate::emissions::policy::spec_active_assets;
use crate::emissions::tier_accounting::PoolWeights;
use crate::math::{is_floor_of, lemma_floor};

verus! {

/// Whether an amount of tokens buys these shares of a tier: as many as its shares stand to
/// its tokens, rounded down, and one for each token where there are no shares yet. A tier
/// whose shares stand for nothing sells none.
pub open spec fn buys(pool: PoolBalance, tokens: int, shares: int) -> bool {
    if pool.shares == 0 {
        shares == tokens
    } else if pool.tokens == 0 {
        shares == 0
    } else {
        is_floor_of(shares, tokens * pool.shares, pool.tokens as int)
    }
}

/// Whether these tokens stand behind some shares of a tier: as many as its tokens stand to
/// its shares, rounded down.
pub open spec fn stands_behind(pool: PoolBalance, shares: int, tokens: int) -> bool {
    if pool.shares == 0 {
        tokens == 0
    } else {
        is_floor_of(tokens, shares * pool.tokens, pool.shares as int)
    }
}

/// Tokens buy the shares of a tier at what its shares are worth.
pub proof fn law_shares_are_sold_at_their_worth(pool: PoolBalance, tokens: int)
    requires
        pool.well_formed(),
    ensures
        buys(pool, tokens, pool.shares_for(tokens)),
        tokens >= 0 ==> pool.shares_for(tokens) >= 0,
{
    if pool.shares != 0 && pool.tokens != 0 {
        lemma_floor(tokens * pool.shares, pool.tokens as int);
        if tokens >= 0 {
            assert(tokens * pool.shares >= 0) by (nonlinear_arith)
                requires
                    tokens >= 0,
                    pool.shares >= 0,
            ;
        }
    }
}

/// Shares of a tier redeem the tokens behind them.
pub proof fn law_shares_redeem_what_stands_behind_them(pool: PoolBalance, shares: int)
    requires
        pool.well_formed(),
    ensures
        stands_behind(pool, shares, pool.tokens_for(shares)),
        0 <= shares <= pool.shares ==> 0 <= pool.tokens_for(shares) <= pool.tokens,
        pool.shares > 0 ==> pool.tokens_for(pool.shares as int) == pool.tokens,
{
    if pool.shares != 0 {
        if pool.shares == shares {
            assert(shares * pool.tokens == pool.tokens * pool.shares) by (nonlinear_arith)
                requires
                    pool.shares == shares,
            ;
        } else {
            lemma_floor(shares * pool.tokens, pool.shares as int);
        }
        if 0 <= shares < pool.shares {
            let q = pool.tokens_for(shares);
            assert(0 <= shares * pool.tokens <= pool.shares * pool.tokens) by (nonlinear_arith)
                requires
                    0 <= shares <= pool.shares,
                    pool.tokens >= 0,
            ;
            assert(0 <= q <= pool.tokens) by (nonlinear_arith)
                requires
                    q * pool.shares <= shares * pool.tokens < q * pool.shares + pool.shares,
                    0 <= shares * pool.tokens <= pool.shares * pool.tokens,
                    pool.shares > 0,
            ;
        }
    }
}

/// A deposit adds its tokens and the shares that they bought, a withdrawal takes its
/// tokens and its shares, which leave the queue, and queueing moves shares into the queue.
/// None of them touches anything else.
pub proof fn law_balances_move_by_what_is_named(pool: PoolBalance, tokens: i128, shares: i128)
    ensures
        pool.tokens + tokens <= i128::MAX && pool.shares + shares <= i128::MAX && tokens >= 0
            && shares >= 0 ==> {
            let after = pool.after_deposit(tokens as int, shares as int);
            &&& after.tokens == pool.tokens + tokens
            &&& after.shares == pool.shares + shares
            &&& after.q4w == pool.q4w
        },
        !pool.lacks(tokens as int, shares as int) <==> tokens <= pool.tokens && shares
            <= pool.shares && shares <= pool.q4w,
        !pool.lacks(tokens as int, shares as int) && tokens >= 0 && shares >= 0
            && pool.well_formed() ==> {
            let after = pool.after_withdraw(tokens as int, shares as int);
            &&& after.tokens == pool.tokens - tokens
            &&& after.shares == pool.shares - shares
            &&& after.q4w == pool.q4w - shares
        },
        shares >= 0 && pool.q4w + shares <= i128::MAX ==> {
            let after = pool.after_queue(shares as int);
            &&& after.q4w == pool.q4w + shares
            &&& after.shares == pool.shares
            &&& after.tokens == pool.tokens
        },
        0 <= shares <= pool.q4w ==> {
            let after = pool.after_queue(-shares);
            &&& after.q4w == pool.q4w - shares
            &&& after.shares == pool.shares
            &&& after.tokens == pool.tokens
        },
{
}

/// A tier that holds no more queued shares than it has weighs the tokens behind its shares
/// that are not queued, and any other tier is refused.
pub proof fn law_tiers_weigh_the_tokens_that_are_not_queued(pool: PoolBalance)
    ensures
        spec_active_assets(pool) is Ok <==> 0 <= pool.q4w <= pool.shares && 0 <= pool.tokens,
        spec_active_assets(pool) matches Ok(active) ==> {
            &&& stands_behind(pool, pool.shares - pool.q4w, active as int)
            &&& 0 <= active <= pool.tokens
        },
{
    if pool.well_formed() {
        law_shares_redeem_what_stands_behind_them(pool, pool.shares - pool.q4w);
    }
}

/// Whether a pool's record holds the tokens behind a tier's shares that are not queued, or
/// nothing where the pool has no such tier.
pub open spec fn holds_active(tier: Option<PoolBalance>, active: i128) -> bool {
    match tier {
        None => active == 0,
        Some(balance) => stands_behind(balance, balance.shares - balance.q4w, active as int),
    }
}

/// A change of one tier's balance leaves the other tier alone and the pool's record with
/// what both tiers then weigh. Nothing else in the record changes.
pub proof fn law_changes_are_weighed_at_once(weights: PoolWeights, balance: PoolBalance)
    ensures
        weights.after_change(balance, true) matches Ok(next) ==> {
            &&& next.asset == weights.asset
            &&& next.blnd_usdc == if weights.asset is BlndUsdc {
                Some(balance)
            } else {
                weights.blnd_usdc
            }
            &&& next.blnd_xlm == if weights.asset is BlndXlm {
                Some(balance)
            } else {
                weights.blnd_xlm
            }
            &&& holds_active(next.blnd_usdc, next.state.active_blnd_usdc)
            &&& holds_active(next.blnd_xlm, next.state.active_blnd_xlm)
            &&& next.state.accrued_pool == weights.state.accrued_pool
            &&& next.state.backstop_tier_carry == weights.state.backstop_tier_carry
            &&& next.state.pending_blnd_usdc == weights.state.pending_blnd_usdc
            &&& next.state.pending_blnd_xlm == weights.state.pending_blnd_xlm
        },
        weights.after_change(balance, true) is Ok <==> {
            &&& weights.state.valid()
            &&& weights.asset is BlndUsdc || weights.asset is BlndXlm ==> balance.well_formed()
            &&& !(weights.asset is BlndUsdc) ==> (weights.blnd_usdc matches Some(tier)
                ==> tier.well_formed())
            &&& !(weights.asset is BlndXlm) ==> (weights.blnd_xlm matches Some(tier)
                ==> tier.well_formed())
        },
        weights.after_change(balance, false) matches Ok(next) && next.state == weights.state,
{
    if let Ok(next) = weights.after_change(balance, true) {
        if let Some(tier) = next.blnd_usdc {
            law_tiers_weigh_the_tokens_that_are_not_queued(tier);
        }
        if let Some(tier) = next.blnd_xlm {
            law_tiers_weigh_the_tokens_that_are_not_queued(tier);
        }
    }
}

} // verus!
