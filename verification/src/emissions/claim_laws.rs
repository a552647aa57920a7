//! What users are paid for a claim.

use vstd::prelude::*;

use super::claim::{
    claim_sum, claims_well_formed, credits_fit, deposit_kept_to, law_claims_add_up, listed,
    spec_claim_lp, spec_claim_one, spec_claims, spec_credit, spec_execute_claim,
    spec_lp_allocations, ClaimAllocation, ClaimPosition, DepositReport, PoolClaim,
};
use crate::backstop::share_laws::{buys, law_shares_are_sold_at_their_worth};
use crate::backstop::tier::BackstopTier;
use crate::errors::BackstopError;
use crate::math::{is_floor_of, lemma_floor, sum_of};
use crate::storage::OngoingEmissionState;

verus! {

/// The claims that bought at least one LP token, in order.
pub open spec fn buying(claims: Seq<PoolClaim>, lp_amount: int, blnd_amount: int) -> Seq<PoolClaim>
    decreases claims.len(),
{
    if claims.len() == 0 {
        Seq::empty()
    } else if lp_amount * claims.last().amount < blnd_amount {
        buying(claims.drop_last(), lp_amount, blnd_amount)
    } else {
        buying(claims.drop_last(), lp_amount, blnd_amount).push(claims.last())
    }
}

/// Whether a claim is settled: with its part, rounded down, of the LP tokens that all BLND
/// bought, which go to the tier, and with the shares that they buy there, which go to the
/// user and are the only ones issued.
pub open spec fn settles(
    claim: PoolClaim,
    allocation: ClaimAllocation,
    lp_amount: int,
    blnd_amount: int,
) -> bool {
    let before = claim.pool_balance;
    let after = allocation.pool_balance;
    &&& allocation.pool == claim.pool
    &&& allocation.blnd_amount == claim.amount
    &&& is_floor_of(allocation.lp_amount as int, lp_amount * claim.amount, blnd_amount)
    &&& buys(before, allocation.lp_amount as int, allocation.shares as int)
    &&& allocation.shares != 0
    &&& allocation.user_shares - claim.user_shares == allocation.shares
    &&& after.shares - before.shares == allocation.shares
    &&& after.tokens - before.tokens == allocation.lp_amount
    &&& after.q4w == before.q4w
    &&& claim.weights.after_change(after, true) == Ok::<_, BackstopError>(allocation.weights)
}

proof fn lemma_settled(claim: PoolClaim, lp_amount: int, blnd_amount: int)
    requires
        claim.amount >= 0,
        0 < lp_amount <= i128::MAX,
        claim.amount <= blnd_amount,
        0 < blnd_amount,
        claim.pool_balance.well_formed(),
        credits_fit(seq![claim], lp_amount, blnd_amount),
    ensures
        spec_claim_lp(claim, lp_amount, blnd_amount) == 0 <==> lp_amount * claim.amount
            < blnd_amount,
        spec_claim_lp(claim, lp_amount, blnd_amount) != 0 ==> (spec_credit(
            claim,
            spec_claim_lp(claim, lp_amount, blnd_amount),
        ) matches Ok(allocation) ==> settles(claim, allocation, lp_amount, blnd_amount)),
{
    let lp = spec_claim_lp(claim, lp_amount, blnd_amount);
    assert(seq![claim][0] == claim);
    assert(0 <= lp_amount * claim.amount <= lp_amount * blnd_amount) by (nonlinear_arith)
        requires
            lp_amount >= 0,
            0 <= claim.amount <= blnd_amount,
    ;
    lemma_floor(lp_amount * claim.amount, blnd_amount);
    assert(lp <= lp_amount) by (nonlinear_arith)
        requires
            lp * blnd_amount <= lp_amount * blnd_amount,
            blnd_amount > 0,
    ;
    if lp >= 1 {
        assert(lp * blnd_amount >= blnd_amount) by (nonlinear_arith)
            requires
                lp >= 1,
                blnd_amount > 0,
        ;
    }
    law_shares_are_sold_at_their_worth(claim.pool_balance, lp);
}

/// A settled claim credits each pool's claim, in order, with its part of the LP tokens
/// that the BLND bought: the tier holds that many more tokens, and the user gains the
/// shares of the tier that these buy, as many as the tier issues. Claims too small for an
/// LP token are left out.
pub proof fn law_claims_are_settled_in_shares_of_the_tier(
    claims: Seq<PoolClaim>,
    lp_amount: int,
    blnd_amount: int,
)
    requires
        claims_well_formed(claims),
        forall|i: int| 0 <= i < claims.len() ==> (#[trigger] claims[i]).pool_balance.well_formed(),
        0 < lp_amount <= i128::MAX,
        0 < blnd_amount,
        claim_sum(claims) <= blnd_amount,
        credits_fit(claims, lp_amount, blnd_amount),
    ensures
        spec_lp_allocations(claims, lp_amount, blnd_amount) matches Ok(allocations) ==> {
            let bought = buying(claims, lp_amount, blnd_amount);
            &&& allocations.len() == bought.len()
            &&& forall|i: int|
                0 <= i < bought.len() ==> settles(
                    bought[i],
                    #[trigger] allocations[i],
                    lp_amount,
                    blnd_amount,
                )
        },
        0 <= claim_sum(claims),
    decreases claims.len(),
{
    if claims.len() > 0 {
        let init = claims.drop_last();
        let claim = claims.last();
        assert(claims[claims.len() - 1] == claim);
        assert forall|i: int| 0 <= i < init.len() implies (#[trigger] init[i]).amount >= 0
            && init[i].pool_balance.well_formed() by {
            assert(init[i] == claims[i]);
        }
        assert(credits_fit(init, lp_amount, blnd_amount)) by {
            assert forall|i: int| 0 <= i < init.len() implies init[i] == #[trigger] claims[i] by {}
        }
        assert(claim_sum(init) + claim.amount == claim_sum(claims));
        assert(claim.amount >= 0);
        law_claims_are_settled_in_shares_of_the_tier(init, lp_amount, blnd_amount);
        assert(credits_fit(seq![claim], lp_amount, blnd_amount)) by {
            assert(seq![claim][0] == claims[claims.len() - 1]);
        }
        lemma_settled(claim, lp_amount, blnd_amount);
        if let Ok(allocations) = spec_lp_allocations(claims, lp_amount, blnd_amount) {
            let before = spec_lp_allocations(init, lp_amount, blnd_amount)->Ok_0;
            let bought = buying(claims, lp_amount, blnd_amount);
            assert forall|i: int| 0 <= i < bought.len() implies settles(
                bought[i],
                #[trigger] allocations[i],
                lp_amount,
                blnd_amount,
            ) by {
                if i < before.len() {
                    assert(allocations[i] == before[i]);
                    assert(bought[i] == buying(init, lp_amount, blnd_amount)[i]);
                }
            }
        }
    }
}

/// A claim is settled wherever every LP token it bought buys a share of its tier, and the
/// tier is in order: one that holds tokens for its shares, no more of them queued than it
/// has.
pub proof fn law_claims_are_settled(
    claims: Seq<PoolClaim>,
    lp_amount: int,
    blnd_amount: int,
)
    requires
        claims_well_formed(claims),
        0 < lp_amount <= i128::MAX,
        0 < blnd_amount,
        forall|i: int|
            0 <= i < claims.len() ==> {
                let lp = lp_amount * (#[trigger] claims[i]).amount / blnd_amount;
                lp != 0 ==> exists|shares: int|
                    {
                        &&& shares != 0
                        &&& #[trigger] buys(claims[i].pool_balance, lp, shares)
                        &&& claims[i].weights.after_change(
                            claims[i].pool_balance.after_deposit(lp, shares),
                            true,
                        ) is Ok
                    }
            },
        forall|i: int| 0 <= i < claims.len() ==> (#[trigger] claims[i]).pool_balance.well_formed(),
    ensures
        spec_lp_allocations(claims, lp_amount, blnd_amount) is Ok,
    decreases claims.len(),
{
    if claims.len() > 0 {
        let init = claims.drop_last();
        let claim = claims.last();
        assert(claims[claims.len() - 1] == claim);
        assert forall|i: int| 0 <= i < init.len() implies init[i] == #[trigger] claims[i] by {}
        law_claims_are_settled(init, lp_amount, blnd_amount);
        let lp = lp_amount * claim.amount / blnd_amount;
        if lp != 0 {
            let pool = claim.pool_balance;
            let shares = choose|shares: int|
                {
                    &&& shares != 0
                    &&& #[trigger] buys(pool, lp, shares)
                    &&& claim.weights.after_change(pool.after_deposit(lp, shares), true) is Ok
                };
            law_shares_are_sold_at_their_worth(pool, lp);
            let worth = pool.shares_for(lp);
            if pool.shares != 0 && pool.tokens != 0 {
                assert(shares == worth) by (nonlinear_arith)
                    requires
                        is_floor_of(shares, lp * pool.shares, pool.tokens as int),
                        is_floor_of(worth, lp * pool.shares, pool.tokens as int),
                        pool.tokens > 0,
                ;
            }
        }
    }
}

/// The BLND that each claim pays.
pub open spec fn amounts_of(claims: Seq<PoolClaim>) -> Seq<int> {
    claims.map_values(|claim: PoolClaim| claim.amount as int)
}

proof fn lemma_amounts(claims: Seq<PoolClaim>)
    ensures
        sum_of(amounts_of(claims)) == claim_sum(claims),
    decreases claims.len(),
{
    if claims.len() > 0 {
        lemma_amounts(claims.drop_last());
        assert(amounts_of(claims).drop_last() =~= amounts_of(claims.drop_last()));
    }
}

/// A claim names at least one pool and none twice, is for a tier that earns emissions and
/// asks for no negative minimum. It pays one amount for each pool, and what the backstop
/// counts as claimed grows by their sum. Nothing else of that count changes.
pub proof fn law_claims_are_counted(
    tier: BackstopTier,
    funding: Result<(), BackstopError>,
    positions: Seq<ClaimPosition>,
    min_lp_tokens_out: i128,
    state: OngoingEmissionState,
    now: u64,
)
    requires
        forall|i: int| 0 <= i < positions.len() ==> (#[trigger] positions[i]).well_formed(),
    ensures
        spec_execute_claim(tier, funding, positions, min_lp_tokens_out, state, now) matches Ok(
            (claims, total, after),
        ) ==> {
            &&& funding is Ok
            &&& tier != BackstopTier::Usdc
            &&& positions.len() > 0
            &&& min_lp_tokens_out >= 0
            &&& claims.len() == positions.len()
            &&& forall|i: int|
                0 <= i < positions.len() ==> spec_claim_one(#[trigger] positions[i], now) == Ok::<
                    PoolClaim,
                    BackstopError,
                >(claims[i])
            &&& forall|i: int, j: int|
                0 <= i < j < positions.len() ==> (#[trigger] positions[i]).pool != (
                #[trigger] positions[j]).pool
            &&& total == sum_of(amounts_of(claims))
            &&& total >= 0
            &&& after.backstop_claimed - state.backstop_claimed == total
            &&& after.backstop_allocated == state.backstop_allocated
            &&& after.backstop_carry == state.backstop_carry
            &&& after.last_distribution == state.last_distribution
            &&& after.pool_allocated == state.pool_allocated
            &&& after.pool_carry == state.pool_carry
            &&& after.split_carry == state.split_carry
            &&& after.total_distributed == state.total_distributed
            &&& total > 0 ==> after.backstop_claimed <= after.backstop_allocated
        },
{
    law_claims_add_up(positions, now);
    if let Ok((claims, total)) = spec_claims(positions, now) {
        lemma_amounts(claims);
        lemma_claimed_one_by_one(positions, now);
    }
}

/// A claim on pools named once each is paid wherever each of them pays, and what was
/// allocated covers it.
pub proof fn law_claims_are_paid(
    tier: BackstopTier,
    positions: Seq<ClaimPosition>,
    min_lp_tokens_out: i128,
    state: OngoingEmissionState,
    amounts: Seq<int>,
    now: u64,
)
    requires
        tier != BackstopTier::Usdc,
        positions.len() > 0,
        min_lp_tokens_out >= 0,
        amounts.len() == positions.len(),
        forall|i: int|
            0 <= i < positions.len() ==> (spec_claim_one(#[trigger] positions[i], now) matches Ok(
                claim,
            ) && claim.amount == amounts[i]) && amounts[i] >= 0,
        forall|i: int, j: int|
            0 <= i < j < positions.len() ==> (#[trigger] positions[i]).pool != (
            #[trigger] positions[j]).pool,
        state.valid(),
        state.conserves(),
        state.backstop_claimed + sum_of(amounts) <= state.backstop_allocated,
    ensures
        spec_execute_claim(tier, Ok(()), positions, min_lp_tokens_out, state, now) is Ok,
{
    lemma_claims_owed(positions, amounts, now);
}

proof fn lemma_claims_owed(positions: Seq<ClaimPosition>, amounts: Seq<int>, now: u64)
    requires
        amounts.len() == positions.len(),
        forall|i: int|
            0 <= i < positions.len() ==> (spec_claim_one(#[trigger] positions[i], now) matches Ok(
                claim,
            ) && claim.amount == amounts[i]) && amounts[i] >= 0,
        forall|i: int, j: int|
            0 <= i < j < positions.len() ==> (#[trigger] positions[i]).pool != (
            #[trigger] positions[j]).pool,
        sum_of(amounts) <= i128::MAX,
    ensures
        spec_claims(positions, now) matches Ok((_, total)) && total == sum_of(amounts),
        sum_of(amounts) >= 0,
    decreases positions.len(),
{
    if positions.len() > 0 {
        let n = positions.len() - 1;
        let init = positions.drop_last();
        let rest = amounts.drop_last();
        assert(spec_claim_one(positions[n], now) is Ok);
        assert(amounts[n] >= 0);
        assert(sum_of(amounts) == sum_of(rest) + amounts[n]);
        assert forall|i: int| 0 <= i < init.len() implies (spec_claim_one(
            #[trigger] init[i],
            now,
        ) matches Ok(claim) && claim.amount == rest[i]) && rest[i] >= 0 by {
            assert(init[i] == positions[i]);
        }
        assert forall|i: int, j: int| 0 <= i < j < init.len() implies (#[trigger] init[i]).pool != (
        #[trigger] init[j]).pool by {
            assert(positions[i].pool != positions[j].pool);
        }
        lemma_claims_owed(init, rest, now);
        assert(!listed(init, positions.last().pool)) by {
            assert forall|j: int| 0 <= j < init.len() implies (#[trigger] init[j]).pool
                != positions[n].pool by {
                assert(positions[j].pool != positions[n].pool);
            }
        }
    }
}

proof fn lemma_claimed_one_by_one(positions: Seq<ClaimPosition>, now: u64)
    requires
        spec_claims(positions, now) is Ok,
    ensures
        spec_claims(positions, now)->Ok_0.0.len() == positions.len(),
        forall|i: int|
            0 <= i < positions.len() ==> spec_claim_one(#[trigger] positions[i], now) == Ok::<
                PoolClaim,
                BackstopError,
            >(spec_claims(positions, now)->Ok_0.0[i]),
        forall|i: int, j: int|
            0 <= i < j < positions.len() ==> (#[trigger] positions[i]).pool != (
            #[trigger] positions[j]).pool,
    decreases positions.len(),
{
    if positions.len() > 0 {
        let init = positions.drop_last();
        lemma_claimed_one_by_one(init, now);
        let before = spec_claims(init, now)->Ok_0.0;
        let claims = spec_claims(positions, now)->Ok_0.0;
        assert forall|i: int| 0 <= i < positions.len() implies spec_claim_one(
            #[trigger] positions[i],
            now,
        ) == Ok::<PoolClaim, BackstopError>(claims[i]) by {
            if i < init.len() {
                assert(init[i] == positions[i]);
                assert(claims[i] == before[i]);
            }
        }
        assert forall|i: int, j: int| 0 <= i < j < positions.len() implies (
        #[trigger] positions[i]).pool != (#[trigger] positions[j]).pool by {
            assert(init[i] == positions[i]);
            if j < init.len() {
                assert(init[j] == positions[j]);
            }
        }
    }
}

/// What the deposit of the claimed BLND reports is taken only where exactly the claimed
/// BLND is gone, and exactly the LP tokens reported, at least one, have come.
pub proof fn law_deposits_are_held_to_their_report(blnd_amount: int, report: DepositReport)
    ensures
        deposit_kept_to(blnd_amount, report) <==> report.blnd_before == report.blnd_after
            + blnd_amount && report.lp_after == report.lp_before + report.lp_amount
            && report.lp_amount >= 1,
{
}

} // verus!
