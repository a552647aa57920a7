//! Claims of accrued emissions and their conversion into tier shares.

use soroban_sdk::Env;
use vstd::prelude::*;

use super::distributor::{
    checkpoint_fits, claim_emissions, law_a_claimed_record_earns_nothing_at_once,
    preview_user_emissions, record_of, spec_advance, spec_after_claim, spec_checkpoint,
    spec_update_user,
};
use super::policy::{checked_add, lemma_part_of_value, proportional_floor, spec_checked_add};
use super::tier_accounting::{
    set_ongoing_emission_state, spec_check_state, validate_ongoing_emission_state, PoolWeights,
};
use crate::backstop::deposit::{buy_shares, credit_fits};
use crate::backstop::pool::PoolBalance;
use crate::backstop::tier::BackstopTier;
use crate::collections::{entries_of, map_contains_key, map_new, map_set};
use crate::errors::BackstopError;
use crate::math::{fits_i128, lemma_quotient_bounds};
use crate::storage::{BackstopEmissionData, OngoingEmissionState, UserEmissionData};
use crate::Address;

verus! {

/// A user's position in the claimed tier of one pool.
#[derive(Clone, Copy, Debug, PartialEq, Eq, Structural)]
pub struct ClaimPosition {
    pub pool: Address,
    /// Why the pool does not count as registered, if so.
    pub unregistered: Option<BackstopError>,
    /// Why the weight of the pool may not change now, if so. This keeps claims from the
    /// pool, but not previews.
    pub standstill: Option<BackstopError>,
    pub emission: Option<BackstopEmissionData>,
    pub user: Option<UserEmissionData>,
    pub pool_balance: PoolBalance,
    pub user_shares: i128,
    /// The pool as its emissions are weighed.
    pub weights: PoolWeights,
}

impl ClaimPosition {
    /// The records can be brought up to date.
    pub open spec fn well_formed(self) -> bool {
        &&& checkpoint_fits(self.user, self.pool_balance)
        &&& self.user matches Some(record) ==> record.well_formed()
    }
}

/// What one pool's position paid, with the records that it leaves.
#[derive(Clone, Copy, Debug, PartialEq, Eq, Structural)]
pub struct PoolClaim {
    pub pool: Address,
    pub amount: i128,
    pub emission: Option<BackstopEmissionData>,
    pub user: Option<UserEmissionData>,
    pub pool_balance: PoolBalance,
    pub user_shares: i128,
    /// The pool as its emissions are weighed.
    pub weights: PoolWeights,
}

/// What all positions paid.
#[derive(Debug)]
pub struct Claims {
    pub blnd_amount: i128,
    pub claims: Vec<PoolClaim>,
}

/// Require a tier that earns emissions.
pub fn require_emission_tier(tier: BackstopTier) -> (r: Result<(), BackstopError>)
    ensures
        r == if tier == BackstopTier::Usdc {
            Err(BackstopError::InvalidEmissionValue)
        } else {
            Ok(())
        },
{
    if tier == BackstopTier::Usdc {
        return Err(BackstopError::InvalidEmissionValue);
    }
    Ok(())
}

/// Whether a pool is among the positions.
pub open spec fn listed(positions: Seq<ClaimPosition>, pool: Address) -> bool {
    exists|j: int| 0 <= j < positions.len() && (#[trigger] positions[j]).pool == pool
}

/// Whether a map has an entry for exactly the pools of the positions.
spec fn lists_pools(map: Map<u64, i128>, positions: Seq<ClaimPosition>) -> bool {
    forall|pool: Address| #[trigger] map.contains_key(pool) <==> listed(positions, pool)
}

/// One more entry lists one more position.
proof fn lemma_lists_one_more(
    map: Map<u64, i128>,
    positions: Seq<ClaimPosition>,
    i: int,
    amount: i128,
)
    requires
        0 <= i < positions.len(),
        lists_pools(map, positions.take(i)),
    ensures
        lists_pools(map.insert(positions[i].pool, amount), positions.take(i + 1)),
{
    let before = positions.take(i);
    let after = positions.take(i + 1);
    let next = map.insert(positions[i].pool, amount);
    assert(after[i] == positions[i]);
    assert forall|pool: Address| #[trigger] next.contains_key(pool) <==> listed(after, pool) by {
        if listed(after, pool) && pool != positions[i].pool {
            let j = choose|j: int| 0 <= j < after.len() && (#[trigger] after[j]).pool == pool;
            assert(before[j] == after[j]);
            assert(map.contains_key(pool));
        }
        if map.contains_key(pool) {
            let j = choose|j: int| 0 <= j < before.len() && (#[trigger] before[j]).pool == pool;
            assert(after[j] == before[j]);
        }
    }
}

/// What one position pays, or the objection to it.
pub open spec fn spec_claim_one(position: ClaimPosition, now: u64) -> Result<
    PoolClaim,
    BackstopError,
> {
    match (position.unregistered, position.standstill) {
        (Some(error), _) => Err(error),
        (None, Some(error)) => Err(error),
        (None, None) => match spec_checkpoint(
            position.emission,
            position.user,
            position.pool_balance,
            position.user_shares,
            now,
        ) {
            Err(error) => Err(error),
            Ok(next) => Ok(
                PoolClaim {
                    pool: position.pool,
                    amount: record_of(next.1).accrued,
                    emission: next.0,
                    user: spec_after_claim(next.1),
                    pool_balance: position.pool_balance,
                    user_shares: position.user_shares,
                    weights: position.weights,
                },
            ),
        },
    }
}

/// What the positions pay in order and in all, or the first objection: a pool
/// listed twice or not registered, a weight that may not change, a record that cannot be used, or an overflow.
pub open spec fn spec_claims(positions: Seq<ClaimPosition>, now: u64) -> Result<
    (Seq<PoolClaim>, i128),
    BackstopError,
>
    decreases positions.len(),
{
    if positions.len() == 0 {
        Ok((Seq::empty(), 0))
    } else {
        match spec_claims(positions.drop_last(), now) {
            Err(error) => Err(error),
            Ok((claims, sum)) => if listed(positions.drop_last(), positions.last().pool) {
                Err(BackstopError::BadRequest)
            } else {
                match spec_claim_one(positions.last(), now) {
                    Err(error) => Err(error),
                    Ok(claim) => match spec_checked_add(sum as int, claim.amount as int) {
                        Err(error) => Err(error),
                        Ok(total) => Ok((claims.push(claim), total)),
                    },
                }
            },
        }
    }
}

proof fn lemma_claims_error(positions: Seq<ClaimPosition>, now: u64, i: int)
    requires
        0 <= i <= positions.len(),
        spec_claims(positions.take(i), now) is Err,
    ensures
        spec_claims(positions, now) == spec_claims(positions.take(i), now),
    decreases positions.len() - i,
{
    if i == positions.len() {
        assert(positions.take(i) =~= positions);
    } else {
        assert(positions.take(i + 1).drop_last() =~= positions.take(i));
        lemma_claims_error(positions, now, i + 1);
    }
}

/// The sum of claims.
pub open spec fn claim_sum(claims: Seq<PoolClaim>) -> int
    decreases claims.len(),
{
    if claims.len() == 0 {
        0
    } else {
        claim_sum(claims.drop_last()) + claims.last().amount
    }
}

/// No claim is negative.
pub open spec fn claims_well_formed(claims: Seq<PoolClaim>) -> bool {
    forall|i: int| 0 <= i < claims.len() ==> (#[trigger] claims[i]).amount >= 0
}

/// The claims of valid positions come in the order of the positions, none is
/// negative, and they add up to the total.
pub proof fn law_claims_add_up(positions: Seq<ClaimPosition>, now: u64)
    requires
        forall|i: int| 0 <= i < positions.len() ==> (#[trigger] positions[i]).well_formed(),
    ensures
        spec_claims(positions, now) matches Ok((claims, total)) ==> {
            &&& claims.len() == positions.len()
            &&& claims_well_formed(claims)
            &&& claim_sum(claims) == total
            &&& total >= 0
            &&& forall|i: int|
                0 <= i < positions.len() ==> (#[trigger] claims[i]).pool == positions[i].pool
        },
    decreases positions.len(),
{
    if positions.len() > 0 {
        let init = positions.drop_last();
        assert(forall|i: int| 0 <= i < init.len() ==> #[trigger] init[i] == positions[i]);
        law_claims_add_up(init, now);
        if let Ok((claims, total)) = spec_claims(positions, now) {
            let before = spec_claims(init, now)->Ok_0.0;
            assert(claims.drop_last() =~= before);
            let last = positions.last();
            assert(last == positions[positions.len() - 1]);
            assert(claims.last().amount >= 0);
            assert forall|i: int| 0 <= i < claims.len() implies (#[trigger] claims[i]).amount >= 0
                && claims[i].pool == positions[i].pool by {
                if i < init.len() {
                    assert(claims[i] == before[i]);
                    assert(init[i] == positions[i]);
                }
            }
        }
    }
}

/// Claim from every position.
fn claim_positions(e: &Env, positions: &Vec<ClaimPosition>, now: u64) -> (r: Result<
    Claims,
    BackstopError,
>)
    requires
        forall|i: int| 0 <= i < positions@.len() ==> (#[trigger] positions@[i]).well_formed(),
    ensures
        match r {
            Ok(claims) => spec_claims(positions@, now) == Ok::<
                (Seq<PoolClaim>, i128),
                BackstopError,
            >((claims.claims@, claims.blnd_amount)),
            Err(error) => spec_claims(positions@, now) == Err::<
                (Seq<PoolClaim>, i128),
                BackstopError,
            >(error),
        },
{
    let mut claims: Vec<PoolClaim> = Vec::new();
    let mut blnd_amount: i128 = 0;
    let mut claimed = map_new(e);
    let mut index: usize = 0;
    while index < positions.len()
        invariant
            index <= positions@.len(),
            lists_pools(entries_of(claimed), positions@.take(index as int)),
            forall|i: int| 0 <= i < positions@.len() ==> (#[trigger] positions@[i]).well_formed(),
            spec_claims(positions@.take(index as int), now) == Ok::<
                (Seq<PoolClaim>, i128),
                BackstopError,
            >((claims@, blnd_amount)),
        decreases positions@.len() - index,
    {
        let position: ClaimPosition = positions[index];
        proof {
            let next = positions@.take(index + 1);
            assert(next.drop_last() =~= positions@.take(index as int));
            assert(next.last() == position);
            if spec_claims(next, now) is Err {
                lemma_claims_error(positions@, now, index + 1);
            }
            assert(positions@[index as int].well_formed());
        }
        if map_contains_key(&claimed, position.pool) {
            return Err(BackstopError::BadRequest);
        }
        if let Some(error) = position.unregistered {
            return Err(error);
        }
        if let Some(error) = position.standstill {
            return Err(error);
        }
        let mut emission = position.emission;
        let mut user = position.user;
        let amount: i128 = claim_emissions(
            e,
            &mut emission,
            &mut user,
            &position.pool_balance,
            position.user_shares,
            now,
        )?;
        proof {
            lemma_lists_one_more(entries_of(claimed), positions@, index as int, amount);
        }
        map_set(&mut claimed, position.pool, amount);
        blnd_amount = checked_add(blnd_amount, amount)?;
        claims.push(
            PoolClaim {
                pool: position.pool,
                amount,
                emission,
                user,
                pool_balance: position.pool_balance,
                user_shares: position.user_shares,
                weights: position.weights,
            },
        );
        index = index + 1;
    }
    assert(positions@.take(index as int) =~= positions@);
    Ok(Claims { blnd_amount, claims })
}

/// The first objection to a claim as such: backfill that is not funded, a tier
/// without emissions, no pools, or a negative minimum.
pub open spec fn spec_claim_request_error(
    tier: BackstopTier,
    funding: Result<(), BackstopError>,
    pools: int,
    min_lp_tokens_out: i128,
) -> Option<BackstopError> {
    if funding is Err {
        Some(funding->Err_0)
    } else if tier == BackstopTier::Usdc {
        Some(BackstopError::InvalidEmissionValue)
    } else if pools == 0 {
        Some(BackstopError::BadRequest)
    } else if min_lp_tokens_out < 0 {
        Some(BackstopError::NegativeAmountError)
    } else {
        None
    }
}

/// The state of all emissions with more of them claimed.
pub open spec fn spec_state_claimed(
    state: OngoingEmissionState,
    amount: int,
) -> OngoingEmissionState {
    OngoingEmissionState {
        backstop_claimed: (state.backstop_claimed + amount) as i128,
        ..state
    }
}

/// The objection to more being claimed: an invalid state, an overflow, or more
/// claimed than allocated.
pub open spec fn spec_record_claim_error(state: OngoingEmissionState, amount: int) -> Option<
    BackstopError,
> {
    if !state.valid() {
        Some(BackstopError::InvalidEmissionValue)
    } else if !fits_i128(state.backstop_claimed + amount) {
        Some(BackstopError::OverflowError)
    } else {
        match spec_check_state(spec_state_claimed(state, amount)) {
            Err(error) => Some(error),
            Ok(_) => None,
        }
    }
}

/// What a claim pays by position and in all, with the state of all emissions after it, or
/// the first objection. Where there is nothing to convert, the state stays as it is.
pub open spec fn spec_execute_claim(
    tier: BackstopTier,
    funding: Result<(), BackstopError>,
    positions: Seq<ClaimPosition>,
    min_lp_tokens_out: i128,
    state: OngoingEmissionState,
    now: u64,
) -> Result<(Seq<PoolClaim>, i128, OngoingEmissionState), BackstopError> {
    match spec_claim_request_error(tier, funding, positions.len() as int, min_lp_tokens_out) {
        Some(error) => Err(error),
        None => match spec_claims(positions, now) {
            Err(error) => Err(error),
            Ok((claims, total)) => if total == 0 {
                Ok((claims, total, state))
            } else {
                match spec_record_claim_error(state, total as int) {
                    Some(error) => Err(error),
                    None => Ok((claims, total, spec_state_claimed(state, total as int))),
                }
            },
        },
    }
}

/// Collect what a user has accrued in one tier of the listed pools. `funding` is
/// the outcome of the backfill's funding check. Where there is something to convert,
/// it counts as claimed from then on.
pub fn execute_claim(
    e: &Env,
    tier: BackstopTier,
    funding: Result<(), BackstopError>,
    positions: &Vec<ClaimPosition>,
    min_lp_tokens_out: i128,
    state: &mut OngoingEmissionState,
    now: u64,
) -> (r: Result<Claims, BackstopError>)
    requires
        forall|i: int| 0 <= i < positions@.len() ==> (#[trigger] positions@[i]).well_formed(),
    ensures
        r is Err ==> *final(state) == *old(state),
        match spec_execute_claim(
            tier,
            funding,
            positions@,
            min_lp_tokens_out,
            *old(state),
            now,
        ) {
            Err(error) => r matches Err(e) && e == error,
            Ok((claims, total, next)) => {
                &&& r matches Ok(c) && c.claims@ == claims && c.blnd_amount == total
                &&& *final(state) == next
            },
        },
{
    funding?;
    require_emission_tier(tier)?;
    if positions.len() == 0 {
        return Err(BackstopError::BadRequest);
    }
    if min_lp_tokens_out < 0 {
        return Err(BackstopError::NegativeAmountError);
    }
    let claims = claim_positions(e, positions, now)?;
    if claims.blnd_amount == 0 {
        return Ok(claims);
    }
    validate_ongoing_emission_state(&*state)?;
    let mut next: OngoingEmissionState = *state;
    next.backstop_claimed = checked_add(state.backstop_claimed, claims.blnd_amount)?;
    set_ongoing_emission_state(&next)?;
    *state = next;
    Ok(claims)
}

/// What the deposit of the claimed tokens into the Comet pool did.
#[derive(Clone, Copy, Debug, PartialEq, Eq, Structural)]
pub struct DepositReport {
    pub blnd_before: i128,
    pub blnd_after: i128,
    pub lp_before: i128,
    pub lp_after: i128,
    pub lp_amount: i128,
}

/// Whether exactly the claimed tokens went in and exactly the reported LP tokens came out.
pub open spec fn deposit_kept_to(blnd_amount: int, report: DepositReport) -> bool {
    &&& report.blnd_before - report.blnd_after == blnd_amount
    &&& report.lp_after - report.lp_before == report.lp_amount
    &&& report.lp_amount > 0
}

/// The LP tokens that one pool's claim bought and the shares that they were credited
/// as, with the balances and the pool's record that this leaves.
#[derive(Clone, Copy, Debug, PartialEq, Eq, Structural)]
pub struct ClaimAllocation {
    pub pool: Address,
    pub blnd_amount: i128,
    pub lp_amount: i128,
    pub shares: i128,
    pub pool_balance: PoolBalance,
    pub user_shares: i128,
    /// The pool as its emissions are weighed.
    pub weights: PoolWeights,
}

/// The LP tokens that one claim bought, rounded down.
pub open spec fn spec_claim_lp(claim: PoolClaim, lp_amount: int, blnd_amount: int) -> int {
    lp_amount * claim.amount / blnd_amount
}

/// The credit of LP tokens to the claimed position, after which the pool's record counts
/// what is active then; an amount that no share stands for is refused.
pub open spec fn spec_credit(claim: PoolClaim, lp: int) -> Result<ClaimAllocation, BackstopError> {
    let shares = claim.pool_balance.shares_for(lp);
    if shares == 0 {
        Err(BackstopError::InvalidShareMintAmount)
    } else {
        let after = claim.pool_balance.after_deposit(lp, shares);
        match claim.weights.after_change(after, true) {
            Err(error) => Err(error),
            Ok(weights) => Ok(
                ClaimAllocation {
                    pool: claim.pool,
                    blnd_amount: claim.amount,
                    lp_amount: lp as i128,
                    shares: shares as i128,
                    pool_balance: after,
                    user_shares: (claim.user_shares + shares) as i128,
                    weights,
                },
            ),
        }
    }
}

/// The credits of all claims in order, or the first objection; claims that bought
/// nothing are left out.
pub open spec fn spec_lp_allocations(
    claims: Seq<PoolClaim>,
    lp_amount: int,
    blnd_amount: int,
) -> Result<Seq<ClaimAllocation>, BackstopError>
    decreases claims.len(),
{
    if claims.len() == 0 {
        Ok(Seq::empty())
    } else {
        match spec_lp_allocations(claims.drop_last(), lp_amount, blnd_amount) {
            Err(error) => Err(error),
            Ok(before) => {
                let lp = spec_claim_lp(claims.last(), lp_amount, blnd_amount);
                if lp == 0 {
                    Ok(before)
                } else {
                    match spec_credit(claims.last(), lp) {
                        Err(error) => Err(error),
                        Ok(allocation) => Ok(before.push(allocation)),
                    }
                }
            },
        }
    }
}

proof fn lemma_allocations_error(
    claims: Seq<PoolClaim>,
    lp_amount: int,
    blnd_amount: int,
    i: int,
)
    requires
        0 <= i <= claims.len(),
        spec_lp_allocations(claims.take(i), lp_amount, blnd_amount) is Err,
    ensures
        spec_lp_allocations(claims, lp_amount, blnd_amount) == spec_lp_allocations(
            claims.take(i),
            lp_amount,
            blnd_amount,
        ),
    decreases claims.len() - i,
{
    if i == claims.len() {
        assert(claims.take(i) =~= claims);
    } else {
        assert(claims.take(i + 1).drop_last() =~= claims.take(i));
        lemma_allocations_error(claims, lp_amount, blnd_amount, i + 1);
    }
}

/// The LP tokens of all allocations.
pub open spec fn lp_sum(allocations: Seq<ClaimAllocation>) -> int
    decreases allocations.len(),
{
    if allocations.len() == 0 {
        0
    } else {
        lp_sum(allocations.drop_last()) + allocations.last().lp_amount
    }
}

/// The claims never share out more LP tokens than were bought.
pub proof fn law_allocations_stay_within_the_deposit(
    claims: Seq<PoolClaim>,
    lp_amount: int,
    blnd_amount: int,
)
    requires
        claims_well_formed(claims),
        0 < lp_amount <= i128::MAX,
        0 < blnd_amount,
        claim_sum(claims) <= blnd_amount,
    ensures
        0 <= claim_sum(claims),
        spec_lp_allocations(claims, lp_amount, blnd_amount) matches Ok(allocations) ==> {
            &&& 0 <= lp_sum(allocations) <= lp_amount
            &&& lp_sum(allocations) * blnd_amount <= lp_amount * claim_sum(claims)
        },
    decreases claims.len(),
{
    if claims.len() == 0 {
        assert(0 * blnd_amount <= lp_amount * 0) by (nonlinear_arith);
    } else {
        let init = claims.drop_last();
        assert(claims.last() == claims[claims.len() - 1]);
        assert(claims_well_formed(init)) by {
            assert(forall|i: int| 0 <= i < init.len() ==> #[trigger] init[i] == claims[i]);
        }
        law_allocations_stay_within_the_deposit(init, lp_amount, blnd_amount);
        if let Ok(all) = spec_lp_allocations(claims, lp_amount, blnd_amount) {
            let before = spec_lp_allocations(init, lp_amount, blnd_amount)->Ok_0;
            let amount = claims.last().amount as int;
            let lp = lp_amount * amount / blnd_amount;
            lemma_part_of_value(lp_amount, amount, blnd_amount);
            if lp != 0 {
                assert(all.drop_last() =~= before);
            }
            let sum = lp_sum(all);
            let x = lp_sum(before);
            let c = claim_sum(init);
            assert(sum == x + lp);
            assert(sum * blnd_amount <= lp_amount * (c + amount)) by (nonlinear_arith)
                requires
                    sum == x + lp,
                    x * blnd_amount <= lp_amount * c,
                    lp * blnd_amount <= lp_amount * amount,
            ;
            assert(sum <= lp_amount) by (nonlinear_arith)
                requires
                    sum * blnd_amount <= lp_amount * (c + amount),
                    c + amount <= blnd_amount,
                    blnd_amount > 0,
                    lp_amount > 0,
            ;
        }
    }
}

/// Whether the credits of all claims stay within an `i128`.
pub open spec fn credits_fit(claims: Seq<PoolClaim>, lp_amount: int, blnd_amount: int) -> bool {
    forall|i: int|
        0 <= i < claims.len() ==> {
            let lp = spec_claim_lp(#[trigger] claims[i], lp_amount, blnd_amount);
            let pool = claims[i].pool_balance;
            &&& lp != 0 ==> credit_fits(pool, claims[i].user_shares as int, lp)
            &&& lp != 0 && pool.shares_for(lp) != 0 ==> claims[i].weights.with_tier(
                pool.after_deposit(lp, pool.shares_for(lp)),
            ).fits()
        }
}

/// Check the deposit of the claimed tokens, share out the LP tokens that it bought and
/// credit them to the claimed positions. The record of every credited pool counts what
/// is active after.
pub fn settle_claim(e: &Env, claims: &Claims, report: &DepositReport) -> (r: Result<
    Vec<ClaimAllocation>,
    BackstopError,
>)
    requires
        claims_well_formed(claims.claims@),
        claims.blnd_amount > 0,
        claim_sum(claims.claims@) == claims.blnd_amount,
        deposit_kept_to(claims.blnd_amount as int, *report) ==> credits_fit(
            claims.claims@,
            report.lp_amount as int,
            claims.blnd_amount as int,
        ),
    ensures
        if !deposit_kept_to(claims.blnd_amount as int, *report) {
            r matches Err(e) && e == BackstopError::BalanceError
        } else {
            match spec_lp_allocations(
                claims.claims@,
                report.lp_amount as int,
                claims.blnd_amount as int,
            ) {
                Ok(allocations) => r matches Ok(a) && a@ == allocations,
                Err(error) => r matches Err(e) && e == error,
            }
        },
{
    match report.blnd_before.checked_sub(report.blnd_after) {
        None => return Err(BackstopError::BalanceError),
        Some(spent) => {
            if spent != claims.blnd_amount {
                return Err(BackstopError::BalanceError);
            }
        },
    }
    match report.lp_after.checked_sub(report.lp_before) {
        None => return Err(BackstopError::BalanceError),
        Some(received) => {
            if received != report.lp_amount {
                return Err(BackstopError::BalanceError);
            }
        },
    }
    if report.lp_amount <= 0 {
        return Err(BackstopError::BalanceError);
    }
    let mut allocations: Vec<ClaimAllocation> = Vec::new();
    let mut index: usize = 0;
    let ghost lp_total = report.lp_amount as int;
    let ghost blnd_total = claims.blnd_amount as int;
    while index < claims.claims.len()
        invariant
            index <= claims.claims@.len(),
            claims_well_formed(claims.claims@),
            lp_total == report.lp_amount,
            blnd_total == claims.blnd_amount,
            claims.blnd_amount > 0,
            claim_sum(claims.claims@) == claims.blnd_amount,
            report.lp_amount > 0,
            deposit_kept_to(blnd_total, *report),
            credits_fit(claims.claims@, lp_total, blnd_total),
            spec_lp_allocations(claims.claims@.take(index as int), lp_total, blnd_total) == Ok::<
                Seq<ClaimAllocation>,
                BackstopError,
            >(allocations@),
        decreases claims.claims@.len() - index,
    {
        let claim: PoolClaim = claims.claims[index];
        proof {
            let next = claims.claims@.take(index + 1);
            assert(next.drop_last() =~= claims.claims@.take(index as int));
            assert(next.last() == claim);
            lemma_claim_within(claims.claims@, index as int);
            lemma_part_of_value(lp_total, claim.amount as int, blnd_total);
            assert(claims.claims@[index as int] == claim);
            if spec_lp_allocations(next, lp_total, blnd_total) is Err {
                lemma_allocations_error(claims.claims@, lp_total, blnd_total, index + 1);
            }
        }
        let lp_amount: i128 = proportional_floor(
            e,
            report.lp_amount,
            claim.amount,
            claims.blnd_amount,
        )?;
        if lp_amount != 0 {
            let mut pool_balance: PoolBalance = claim.pool_balance;
            let shares: i128 = buy_shares(&mut pool_balance, lp_amount)?;
            let weights: PoolWeights = claim.weights.changed(&pool_balance, true)?;
            allocations.push(
                ClaimAllocation {
                    pool: claim.pool,
                    blnd_amount: claim.amount,
                    lp_amount,
                    shares,
                    pool_balance,
                    user_shares: claim.user_shares + shares,
                    weights,
                },
            );
        }
        index = index + 1;
    }
    assert(claims.claims@.take(index as int) =~= claims.claims@);
    Ok(allocations)
}

/// The position that a claim leaves once the LP tokens that it bought are credited.
pub open spec fn position_after(
    position: ClaimPosition,
    claim: PoolClaim,
    lp_amount: int,
    blnd_amount: int,
) -> ClaimPosition {
    let claimed = ClaimPosition { emission: claim.emission, user: claim.user, ..position };
    let lp = spec_claim_lp(claim, lp_amount, blnd_amount);
    if blnd_amount == 0 || lp == 0 {
        claimed
    } else {
        let credit = spec_credit(claim, lp)->Ok_0;
        ClaimPosition {
            pool_balance: credit.pool_balance,
            user_shares: credit.user_shares,
            weights: credit.weights,
            ..claimed
        }
    }
}

/// The positions that claims leave once the LP tokens that they bought are credited.
pub open spec fn positions_after(
    positions: Seq<ClaimPosition>,
    claims: Seq<PoolClaim>,
    lp_amount: int,
    blnd_amount: int,
) -> Seq<ClaimPosition> {
    Seq::new(
        positions.len(),
        |i: int| position_after(positions[i], claims[i], lp_amount, blnd_amount),
    )
}

/// Whether `left` is a position that `claim` can leave.
spec fn leaves(position: ClaimPosition, claim: PoolClaim, left: ClaimPosition) -> bool {
    &&& left.pool == position.pool
    &&& left.unregistered == position.unregistered
    &&& left.standstill == position.standstill
    &&& left.emission == claim.emission
    &&& left.user == claim.user
    &&& left.pool_balance.shares >= left.pool_balance.q4w
    &&& left.user_shares >= position.user_shares
}

/// Claims from positions that were just claimed from pay nothing and change no record.
proof fn lemma_claims_again(positions: Seq<ClaimPosition>, left: Seq<ClaimPosition>, now: u64)
    requires
        spec_claims(positions, now) is Ok,
        left.len() == positions.len(),
        forall|i: int|
            0 <= i < positions.len() ==> (#[trigger] positions[i]).well_formed()
                && positions[i].pool_balance.well_formed(),
        forall|i: int|
            0 <= i < positions.len() ==> leaves(
                positions[i],
                spec_claims(positions, now)->Ok_0.0[i],
                #[trigger] left[i],
            ),
    ensures
        spec_claims(left, now) matches Ok((again, total)) && total == 0 && again.len()
            == left.len() && forall|i: int|
            0 <= i < left.len() ==> (#[trigger] again[i]).amount == 0 && again[i].emission
                == left[i].emission && again[i].user == left[i].user,
    decreases positions.len(),
{
    if positions.len() > 0 {
        let n = positions.len() - 1;
        let init = positions.drop_last();
        let left_init = left.drop_last();
        law_claims_add_up(positions, now);
        assert(forall|i: int| 0 <= i < init.len() ==> #[trigger] init[i] == positions[i]);
        law_claims_add_up(init, now);
        let claims = spec_claims(positions, now)->Ok_0.0;
        let before = spec_claims(init, now)->Ok_0.0;
        assert forall|i: int| 0 <= i < init.len() implies leaves(
            init[i],
            before[i],
            #[trigger] left_init[i],
        ) by {
            assert(leaves(positions[i], claims[i], left[i]));
            assert(claims[i] == before[i]);
        }
        lemma_claims_again(init, left_init, now);
        let again = spec_claims(left_init, now)->Ok_0.0;
        let position = positions[n];
        assert(position.well_formed());
        assert(leaves(position, claims[n], left[n]));
        assert(listed(left_init, left[n].pool) == listed(init, position.pool)) by {
            if listed(left_init, left[n].pool) {
                let j = choose|j: int|
                    0 <= j < left_init.len() && (#[trigger] left_init[j]).pool == left[n].pool;
                assert(leaves(init[j], before[j], left_init[j]));
            }
        }
        law_a_claimed_record_earns_nothing_at_once(
            position.emission,
            position.user,
            position.pool_balance,
            position.user_shares,
            left[n].pool_balance,
            left[n].user_shares,
            now,
        );
        assert(spec_claim_one(left[n], now) is Ok);
        let last = spec_claim_one(left[n], now)->Ok_0;
        assert(last.amount == 0);
        assert forall|i: int| 0 <= i < left.len() implies (#[trigger] again.push(last)[i]).amount
            == 0 && again.push(last)[i].emission == left[i].emission && again.push(last)[i].user
            == left[i].user by {
            if i < left_init.len() {
                assert(again[i].amount == 0);
                assert(left_init[i] == left[i]);
            }
        }
    }
}

/// Where the credits of all claims go through, each of them does.
proof fn lemma_credits_go_through(
    claims: Seq<PoolClaim>,
    lp_amount: int,
    blnd_amount: int,
    i: int,
)
    requires
        spec_lp_allocations(claims, lp_amount, blnd_amount) is Ok,
        0 <= i < claims.len(),
    ensures
        spec_claim_lp(claims[i], lp_amount, blnd_amount) != 0 ==> spec_credit(
            claims[i],
            spec_claim_lp(claims[i], lp_amount, blnd_amount),
        ) is Ok,
    decreases claims.len(),
{
    if i < claims.len() - 1 {
        lemma_credits_go_through(claims.drop_last(), lp_amount, blnd_amount, i);
    }
}

/// A claim from the positions that a claim leaves pays nothing at the same time, with the
/// LP tokens that the first one bought credited: it changes neither the state of all
/// emissions nor a record.
pub proof fn law_a_second_claim_gets_nothing(
    tier: BackstopTier,
    funding: Result<(), BackstopError>,
    positions: Seq<ClaimPosition>,
    min_lp_tokens_out: i128,
    state: OngoingEmissionState,
    lp_amount: int,
    now: u64,
)
    requires
        forall|i: int|
            0 <= i < positions.len() ==> (#[trigger] positions[i]).well_formed()
                && positions[i].pool_balance.well_formed(),
        spec_execute_claim(tier, funding, positions, min_lp_tokens_out, state, now) matches Ok(
            (claims, total, _),
        ) ==> (total > 0 ==> {
            &&& 0 < lp_amount <= i128::MAX
            &&& credits_fit(claims, lp_amount, total as int)
            &&& spec_lp_allocations(claims, lp_amount, total as int) is Ok
        }),
    ensures
        spec_execute_claim(tier, funding, positions, min_lp_tokens_out, state, now) matches Ok(
            (claims, total, next),
        ) ==> {
            let left = positions_after(positions, claims, lp_amount, total as int);
            spec_execute_claim(tier, funding, left, min_lp_tokens_out, next, now) matches Ok(
                (again, sum, after),
            ) && {
                &&& sum == 0
                &&& after == next
                &&& again.len() == left.len()
                &&& forall|i: int|
                    0 <= i < left.len() ==> (#[trigger] again[i]).amount == 0
                        && again[i].emission == left[i].emission && again[i].user == left[i].user
            }
        },
{
    if let Ok((claims, total, next)) = spec_execute_claim(
        tier,
        funding,
        positions,
        min_lp_tokens_out,
        state,
        now,
    ) {
        let left = positions_after(positions, claims, lp_amount, total as int);
        law_claims_add_up(positions, now);
        assert forall|i: int| 0 <= i < positions.len() implies leaves(
            positions[i],
            claims[i],
            #[trigger] left[i],
        ) by {
            lemma_claims_of(positions, now, i);
            let claim = claims[i];
            assert(positions[i].pool_balance.well_formed());
            if total > 0 {
                let lp = spec_claim_lp(claim, lp_amount, total as int);
                lemma_claim_within(claims, i);
                lemma_part_of_value(lp_amount, claim.amount as int, total as int);
                lemma_credits_go_through(claims, lp_amount, total as int, i);
                assert(spec_claim_lp(claims[i], lp_amount, total as int) == lp);
                if lp != 0 {
                    assert(claim.pool_balance.shares_for(lp) >= 0) by {
                        lemma_shares_for_nonnegative(claim.pool_balance, lp);
                    }
                }
            }
        }
        lemma_claims_again(positions, left, now);
    }
}

/// Each claim is that of its position.
proof fn lemma_claims_of(positions: Seq<ClaimPosition>, now: u64, i: int)
    requires
        spec_claims(positions, now) is Ok,
        0 <= i < positions.len(),
    ensures
        spec_claims(positions, now)->Ok_0.0.len() == positions.len(),
        spec_claim_one(positions[i], now) == Ok::<PoolClaim, BackstopError>(
            spec_claims(positions, now)->Ok_0.0[i],
        ),
    decreases positions.len(),
{
    let init = positions.drop_last();
    if init.len() > 0 {
        lemma_claims_of(
            init,
            now,
            if i < init.len() {
                i
            } else {
                0
            },
        );
    } else {
        assert(spec_claims(init, now)->Ok_0.0.len() == 0);
    }
    let before = spec_claims(init, now)->Ok_0.0;
    let claims = spec_claims(positions, now)->Ok_0.0;
    assert(claims == before.push(claims.last()));
}

/// No amount of tokens buys a negative number of shares.
proof fn lemma_shares_for_nonnegative(pool: PoolBalance, tokens: int)
    requires
        pool.well_formed(),
        tokens >= 0,
    ensures
        pool.shares_for(tokens) >= 0,
{
    if pool.shares != 0 && pool.tokens != 0 {
        assert(tokens * pool.shares >= 0) by (nonlinear_arith)
            requires
                tokens >= 0,
                pool.shares >= 0,
        ;
        lemma_quotient_bounds(tokens * pool.shares, pool.tokens as int);
    }
}

/// A single claim is part of all claims.
proof fn lemma_claim_within(claims: Seq<PoolClaim>, i: int)
    requires
        claims_well_formed(claims),
        0 <= i < claims.len(),
    ensures
        0 <= claims[i].amount <= claim_sum(claims),
    decreases claims.len(),
{
    let init = claims.drop_last();
    assert(claims.last() == claims[claims.len() - 1]);
    assert(claims_well_formed(init)) by {
        assert(forall|j: int| 0 <= j < init.len() ==> #[trigger] init[j] == claims[j]);
    }
    if i < init.len() {
        lemma_claim_within(init, i);
        assert(init[i] == claims[i]);
    } else if init.len() > 0 {
        lemma_claim_within(init, 0);
    } else {
        assert(claim_sum(init) == 0);
    }
}

/// What a user could claim from one position of a registered pool, whether or not its
/// weight may change now.
pub open spec fn spec_preview_one(position: ClaimPosition, now: u64) -> Result<
    i128,
    BackstopError,
> {
    let record = match position.emission {
        None => spec_update_user(record_of(position.user), position.user_shares, 0),
        Some(data) => match spec_advance(data, position.pool_balance, now) {
            Err(error) => Err(error),
            Ok(next) => spec_update_user(
                record_of(position.user),
                position.user_shares,
                next.index,
            ),
        },
    };
    match (position.unregistered, record) {
        (Some(error), _) => Err(error),
        (None, Err(error)) => Err(error),
        (None, Ok(record)) => Ok(record.accrued),
    }
}

/// What a user could claim from the positions, or the first objection.
pub open spec fn spec_preview(positions: Seq<ClaimPosition>, now: u64) -> Result<
    i128,
    BackstopError,
>
    decreases positions.len(),
{
    if positions.len() == 0 {
        Ok(0)
    } else {
        match spec_preview(positions.drop_last(), now) {
            Err(error) => Err(error),
            Ok(sum) => if listed(positions.drop_last(), positions.last().pool) {
                Err(BackstopError::BadRequest)
            } else {
                match spec_preview_one(positions.last(), now) {
                    Err(error) => Err(error),
                    Ok(amount) => spec_checked_add(sum as int, amount as int),
                }
            },
        }
    }
}

proof fn lemma_preview_error(positions: Seq<ClaimPosition>, now: u64, i: int)
    requires
        0 <= i <= positions.len(),
        spec_preview(positions.take(i), now) is Err,
    ensures
        spec_preview(positions, now) == spec_preview(positions.take(i), now),
    decreases positions.len() - i,
{
    if i == positions.len() {
        assert(positions.take(i) =~= positions);
    } else {
        assert(positions.take(i + 1).drop_last() =~= positions.take(i));
        lemma_preview_error(positions, now, i + 1);
    }
}

/// What a user could claim, with nothing changed. Only a missing registration keeps a
/// pool from being previewed.
pub fn preview_claim(
    e: &Env,
    tier: BackstopTier,
    positions: &Vec<ClaimPosition>,
    now: u64,
) -> (r: Result<i128, BackstopError>)
    requires
        forall|i: int| 0 <= i < positions@.len() ==> (#[trigger] positions@[i]).well_formed(),
    ensures
        r == if tier == BackstopTier::Usdc {
            Err(BackstopError::InvalidEmissionValue)
        } else if positions@.len() == 0 {
            Err(BackstopError::BadRequest)
        } else {
            spec_preview(positions@, now)
        },
{
    require_emission_tier(tier)?;
    if positions.len() == 0 {
        return Err(BackstopError::BadRequest);
    }
    let mut claimable: i128 = 0;
    let mut previewed = map_new(e);
    let mut index: usize = 0;
    while index < positions.len()
        invariant
            index <= positions@.len(),
            lists_pools(entries_of(previewed), positions@.take(index as int)),
            positions@.len() > 0,
            tier != BackstopTier::Usdc,
            forall|i: int| 0 <= i < positions@.len() ==> (#[trigger] positions@[i]).well_formed(),
            spec_preview(positions@.take(index as int), now) == Ok::<i128, BackstopError>(
                claimable,
            ),
        decreases positions@.len() - index,
    {
        let position: ClaimPosition = positions[index];
        proof {
            let next = positions@.take(index + 1);
            assert(next.drop_last() =~= positions@.take(index as int));
            assert(next.last() == position);
            if spec_preview(next, now) is Err {
                lemma_preview_error(positions@, now, index + 1);
            }
            assert(positions@[index as int].well_formed());
        }
        if map_contains_key(&previewed, position.pool) {
            return Err(BackstopError::BadRequest);
        }
        if let Some(error) = position.unregistered {
            return Err(error);
        }
        let record: UserEmissionData = preview_user_emissions(
            e,
            &position.emission,
            &position.user,
            &position.pool_balance,
            position.user_shares,
            now,
        )?;
        proof {
            lemma_lists_one_more(entries_of(previewed), positions@, index as int, record.accrued);
        }
        map_set(&mut previewed, position.pool, record.accrued);
        claimable = checked_add(claimable, record.accrued)?;
        index = index + 1;
    }
    assert(positions@.take(index as int) =~= positions@);
    Ok(claimable)
}

/// Whether a position can be previewed: it has a stream, or its record has not yet
/// gained from one.
pub open spec fn previewable(position: ClaimPosition) -> bool {
    position.emission is Some || {
        &&& position.user_shares >= 0
        &&& record_of(position.user).well_formed()
        &&& record_of(position.user).index == 0
    }
}

/// A preview shows exactly what a claim then pays, where every position has a stream or
/// has not yet gained from one. Where no weight stands still, what refuses the claim
/// refuses the preview too.
pub proof fn law_preview_shows_the_claim(positions: Seq<ClaimPosition>, now: u64)
    requires
        forall|i: int| 0 <= i < positions.len() ==> previewable(#[trigger] positions[i]),
    ensures
        match spec_claims(positions, now) {
            Ok((_, total)) => spec_preview(positions, now) == Ok::<i128, BackstopError>(total),
            Err(error) => (forall|i: int|
                0 <= i < positions.len() ==> (#[trigger] positions[i]).standstill is None)
                ==> spec_preview(positions, now) == Err::<i128, BackstopError>(error),
        },
    decreases positions.len(),
{
    if positions.len() > 0 {
        let init = positions.drop_last();
        assert(forall|i: int| 0 <= i < init.len() ==> #[trigger] init[i] == positions[i]);
        law_preview_shows_the_claim(init, now);
        let last = positions.last();
        assert(last == positions[positions.len() - 1]);
        assert(last.emission is None ==> last.user_shares * (0 - record_of(last.user).index) == 0)
            by (nonlinear_arith)
            requires
                last.emission is None ==> record_of(last.user).index == 0,
        ;
    }
}

/// The position as it is when its weight may change.
pub open spec fn may_change(position: ClaimPosition) -> ClaimPosition {
    ClaimPosition { standstill: None, ..position }
}

/// The positions as they are when their weights may change.
pub open spec fn all_may_change(positions: Seq<ClaimPosition>) -> Seq<ClaimPosition> {
    positions.map_values(|position: ClaimPosition| may_change(position))
}

/// A preview shows the same amount while weights stand still as when they may change.
pub proof fn law_previews_go_on_while_weights_stand_still(positions: Seq<ClaimPosition>, now: u64)
    ensures
        spec_preview(positions, now) == spec_preview(all_may_change(positions), now),
    decreases positions.len(),
{
    let free = all_may_change(positions);
    if positions.len() > 0 {
        let init = positions.drop_last();
        law_previews_go_on_while_weights_stand_still(init, now);
        assert(free.drop_last() =~= all_may_change(init));
        assert(free.last() == may_change(positions.last()));
        let pool = positions.last().pool;
        assert(listed(init, pool) == listed(free.drop_last(), pool)) by {
            if listed(init, pool) {
                let j = choose|j: int| 0 <= j < init.len() && (#[trigger] init[j]).pool == pool;
                assert(free.drop_last()[j].pool == pool);
            }
            if listed(free.drop_last(), pool) {
                let j = choose|j: int|
                    0 <= j < init.len() && (#[trigger] free.drop_last()[j]).pool == pool;
                assert(init[j].pool == pool);
            }
        }
    }
}

} // verus!
