//! Which deposits, withdrawals, donations, draws and clawbacks are taken.

use vstd::prelude::*;

use super::clawback::{
    law_clawbacks_burn_the_fewest_shares, lemma_shares_for_tokens_bounds, spec_clawback_error,
    spec_shares_for_tokens,
};
use super::deposit::spec_deposit_error;
use super::fund_management::{
    law_haircut_is_exactly_one_percent, spec_credited, spec_donate_error, spec_draw_error,
    spec_haircut, spec_next_carry,
};
use super::pool::{BackstopAsset, PoolBalance};
use super::share_laws::{
    buys, law_shares_are_sold_at_their_worth, law_shares_redeem_what_stands_behind_them,
    stands_behind,
};
use super::user::{
    law_dequeue_takes_newest_first, law_matured_shares_are_owed, queue_well_formed, queued_total,
    spec_matured, Q4W,
};
use super::withdrawal::{
    spec_dequeue_error, spec_queue_error, spec_withdraw_error, QueueLengths,
};
use crate::emissions::tier_accounting::WeightStreams;
use crate::errors::BackstopError;
use crate::math::{is_ceil_of, is_floor_of, lemma_ceil_is_unique, lemma_floor_is_unique};
use crate::Address;

verus! {

/// A deposit is taken from anyone but the pool and the backstop, into a registered pool
/// whose users' earnings can be counted, wherever it buys a share.
pub proof fn law_deposits_are_taken_where_they_buy_a_share(
    pool: PoolBalance,
    from: Address,
    pool_address: Address,
    backstop: Address,
    registration: Result<(), BackstopError>,
    counted: Result<WeightStreams, BackstopError>,
    amount: i128,
)
    requires
        pool.well_formed(),
    ensures
        spec_deposit_error(
            pool,
            from,
            pool_address,
            backstop,
            registration,
            counted,
            amount,
        ) is None <==> {
            &&& amount >= 0
            &&& from != pool_address
            &&& from != backstop
            &&& registration is Ok
            &&& counted is Ok
            &&& !buys(pool, amount as int, 0)
        },
{
    law_shares_are_sold_at_their_worth(pool, amount as int);
    if buys(pool, amount as int, 0) && pool.shares != 0 && pool.tokens != 0 {
        lemma_floor_is_unique(0, amount * pool.shares, pool.tokens as int);
        lemma_floor_is_unique(
            pool.shares_for(amount as int),
            amount * pool.shares,
            pool.tokens as int,
        );
    }
}

/// Shares are queued where the user has them and has fewer than twenty entries queued over
/// all tiers of the pool.
pub proof fn law_queues_hold_twenty_entries(shares: i128, lengths: QueueLengths, amount: i128)
    ensures
        spec_queue_error(shares, lengths, amount) is None <==> {
            &&& 0 <= amount <= shares
            &&& lengths.blnd_usdc + lengths.blnd_xlm + lengths.usdc < 20
        },
{
}

/// Queued shares are taken back where the user and the pool have as many queued, and the
/// user's earnings can be counted.
pub proof fn law_queued_shares_can_be_taken_back(
    pool: PoolBalance,
    q4w: Seq<Q4W>,
    counted: Result<WeightStreams, BackstopError>,
    amount: i128,
)
    requires
        queue_well_formed(q4w),
    ensures
        spec_dequeue_error(pool, q4w, counted, amount) is None <==> {
            &&& 0 <= amount <= queued_total(q4w)
            &&& amount <= pool.q4w
            &&& counted is Ok
        },
{
    if amount >= 0 {
        law_dequeue_takes_newest_first(q4w, amount as int);
    }
}

/// Matured shares are withdrawn where the pool has no bad debt, and they stand for a token
/// or the tier holds none.
pub proof fn law_matured_shares_are_withdrawn_without_bad_debt(
    pool: PoolBalance,
    q4w: Seq<Q4W>,
    has_liabilities: bool,
    counted: Result<WeightStreams, BackstopError>,
    amount: i128,
    now: u64,
)
    requires
        pool.well_formed(),
        queue_well_formed(q4w),
        amount > 0,
    ensures
        spec_withdraw_error(pool, q4w, has_liabilities, counted, amount, now) is None <==> {
            &&& !has_liabilities
            &&& amount <= spec_matured(q4w, now)
            &&& amount <= pool.q4w
            &&& stands_behind(pool, amount as int, 0) ==> pool.tokens == 0
            &&& counted is Ok
        },
{
    law_matured_shares_are_owed(q4w, amount as int, now);
    law_shares_redeem_what_stands_behind_them(pool, amount as int);
    if pool.shares != 0 && stands_behind(pool, amount as int, 0) {
        lemma_floor_is_unique(0, amount * pool.tokens, pool.shares as int);
        lemma_floor_is_unique(
            pool.tokens_for(amount as int),
            amount * pool.tokens,
            pool.shares as int,
        );
    }
}

/// A draw takes no more than the tier holds; one of nothing is always taken.
pub proof fn law_draws_stay_within_the_tier(
    pool: PoolBalance,
    change: Result<bool, BackstopError>,
    amount: i128,
)
    requires
        pool.well_formed(),
    ensures
        spec_draw_error(pool, change, amount) is None <==> amount == 0 || (0 < amount
            <= pool.tokens && change is Ok),
{
}

/// A donation is taken from anyone but the pool and the backstop, into a registered pool
/// whose weight may change. One of USDC or XLM leaves one percent, with the fractions of
/// earlier ones, for the buyback, and the rest is credited. Any other is credited whole.
pub proof fn law_donations_of_pair_tokens_leave_one_percent(
    from: Address,
    pool_address: Address,
    backstop: Address,
    change: Result<bool, BackstopError>,
    registration: Result<(), BackstopError>,
    asset: BackstopAsset,
    amount: i128,
    carry: i128,
    pending: i128,
)
    requires
        0 <= carry < 100,
    ensures
        spec_donate_error(
            from,
            pool_address,
            backstop,
            change,
            registration,
            asset,
            amount,
            carry,
            pending,
        ) is None ==> {
            &&& amount >= 0
            &&& from != pool_address
            &&& from != backstop
            &&& change is Ok
            &&& registration is Ok
        },
        amount >= 0 && amount + carry <= i128::MAX && pending + amount <= i128::MAX && from
            != pool_address && from != backstop && change is Ok && registration is Ok
            ==> spec_donate_error(
            from,
            pool_address,
            backstop,
            change,
            registration,
            asset,
            amount,
            carry,
            pending,
        ) is None,
        amount >= 0 ==> {
            let credited = spec_credited(asset, amount as int, carry as int);
            let haircut = spec_haircut(amount as int, carry as int);
            if asset == BackstopAsset::Usdc || asset == BackstopAsset::Xlm {
                &&& credited + haircut == amount
                &&& is_floor_of(haircut, amount + carry, 100)
                &&& spec_next_carry(amount as int, carry as int) == amount + carry - haircut * 100
            } else {
                credited == amount
            }
        },
{
    if amount >= 0 {
        law_haircut_is_exactly_one_percent(amount as int, carry as int);
    }
}

/// A clawback takes an amount that the tier holds and the backstop has, wherever the user
/// has the shares for it: the fewest that stand for it, queued or not.
pub proof fn law_clawbacks_are_taken_where_the_user_has_the_shares(
    pool: PoolBalance,
    shares: i128,
    q4w: Seq<Q4W>,
    from: Address,
    pool_address: Address,
    backstop: Address,
    counted: Result<WeightStreams, BackstopError>,
    amount: i128,
    held: i128,
    to_burn: int,
)
    requires
        pool.well_formed(),
        shares >= 0,
        queue_well_formed(q4w),
        0 <= queued_total(q4w),
        shares + queued_total(q4w) <= i128::MAX,
        0 < amount <= pool.tokens && pool.shares > 0 ==> is_ceil_of(
            to_burn,
            amount * pool.shares,
            pool.tokens as int,
        ),
    ensures
        spec_clawback_error(
            pool,
            shares,
            q4w,
            from,
            pool_address,
            backstop,
            counted,
            amount,
            held,
        ) is None <==> {
            &&& 0 < amount <= pool.tokens
            &&& pool.shares > 0
            &&& from != pool_address
            &&& from != backstop
            &&& to_burn <= shares + queued_total(q4w)
            &&& counted is Ok
            &&& amount <= held
        },
{
    if 0 < amount <= pool.tokens && pool.shares > 0 {
        law_clawbacks_burn_the_fewest_shares(pool, amount as int);
        lemma_ceil_is_unique(to_burn, amount * pool.shares, pool.tokens as int);
        lemma_ceil_is_unique(
            spec_shares_for_tokens(pool, amount as int),
            amount * pool.shares,
            pool.tokens as int,
        );
        lemma_shares_for_tokens_bounds(pool, amount as int);
    }
}

} // verus!
