//! What streams pay, what users earn of them and what a gulp hands over.

use vstd::prelude::*;

use super::claim::{spec_claim_one, ClaimPosition};
use super::distributor::{
    record_of, spec_advance, spec_set_eps,
    spec_update_user,
};
use super::manager::{spec_gulp, GulpResult, PoolStreams};
use crate::backstop::pool::PoolBalance;
use crate::errors::BackstopError;
use crate::math::{is_floor_of, lemma_floor, lemma_quotient_bounds, sum_of, trunc_div};
use crate::storage::{BackstopEmissionData, PoolOngoingEmissions, UserEmissionData};

verus! {

/// The seconds that a stream has run since it was last counted: up to now, or up to its end.
pub open spec fn seconds_run(data: BackstopEmissionData, now: u64) -> int {
    if now <= data.expiration && data.last_time < now {
        now - data.last_time
    } else if data.expiration < now && data.last_time < data.expiration {
        data.expiration - data.last_time
    } else {
        0
    }
}

/// Whether a stream runs out between when it was last counted and now.
pub open spec fn runs_out(data: BackstopEmissionData, now: u64) -> bool {
    data.last_time < data.expiration <= now
}

/// What a stream pays since it was last counted: its rate for every second, and at its end
/// what its rate left over.
pub open spec fn paid_out(data: BackstopEmissionData, now: u64) -> int {
    seconds_run(data, now) * data.eps + if runs_out(data, now) {
        data.schedule_carry as int
    } else {
        0
    }
}

/// A stream pays its rate for every second up to its end. What it pays is spread over the
/// active shares with what was left over, and less than one unit per share is left over
/// again; without active shares, the index stays as it is.
pub proof fn law_streams_pay_by_the_second(
    data: BackstopEmissionData,
    pool: PoolBalance,
    now: u64,
)
    requires
        pool.shares - pool.q4w <= i128::MAX,
    ensures
        spec_advance(data, pool, now) matches Ok(next) ==> {
            let active = pool.shares - pool.q4w;
            let spread = paid_out(data, now) * 10_000_000 + data.index_carry;
            &&& data.last_time <= now
            &&& active >= 0
            &&& next.last_time == now
            &&& next.eps == data.eps
            &&& next.expiration == data.expiration
            &&& next.schedule_carry == if runs_out(data, now) {
                0
            } else {
                data.schedule_carry
            }
            &&& if active > 0 && seconds_run(data, now) > 0 {
                &&& is_floor_of(next.index - data.index, spread, active)
                &&& next.index_carry == spread - (next.index - data.index) * active
            } else {
                &&& next.index == data.index
                &&& next.index_carry == data.index_carry
            }
        },
{
    if let Ok(next) = spec_advance(data, pool, now) {
        let active = pool.shares - pool.q4w;
        let spread = paid_out(data, now) * 10_000_000 + data.index_carry;
        if active > 0 && seconds_run(data, now) > 0 {
            assert(data.emitted(now) == paid_out(data, now));
            assert(paid_out(data, now) >= 0) by {
                let secs = seconds_run(data, now);
                assert(secs * data.eps >= 0) by (nonlinear_arith)
                    requires
                        secs >= 0,
                        data.eps >= 0,
                ;
            }
            lemma_floor(spread, active);
            lemma_quotient_bounds(spread, active);
        }
    }
}

/// A stream that is in order is always brought up to date, where the index has room.
pub proof fn law_streams_are_brought_up_to_date(
    data: BackstopEmissionData,
    pool: PoolBalance,
    now: u64,
)
    requires
        0 <= data.index,
        0 <= data.index_carry,
        0 <= data.schedule_carry < 604_800,
        data.last_time <= now,
        pool.q4w <= pool.shares,
        data.index + paid_out(data, now) * 10_000_000 + data.index_carry <= i128::MAX,
    ensures
        spec_advance(data, pool, now) is Ok,
{
    let active = pool.shares - pool.q4w;
    let spread = paid_out(data, now) * 10_000_000 + data.index_carry;
    if active > 0 && seconds_run(data, now) > 0 {
        assert(data.emitted(now) == paid_out(data, now));
        assert(paid_out(data, now) >= 0) by {
            let secs = seconds_run(data, now);
            assert(secs * data.eps >= 0) by (nonlinear_arith)
                requires
                    secs >= 0,
                    data.eps >= 0,
            ;
        }
        lemma_quotient_bounds(spread, active);
    }
}

/// A user earns what each share earned since the user was last counted, in whole tokens,
/// and keeps the fraction.
pub proof fn law_users_earn_by_the_share(data: UserEmissionData, shares: i128, index: i128)
    requires
        data.well_formed(),
    ensures
        spec_update_user(data, shares, index) matches Ok(next) ==> {
            let earned = shares * (index - data.index) + data.carry;
            &&& shares >= 0
            &&& data.index <= index
            &&& next.index == index
            &&& is_floor_of(next.accrued - data.accrued, earned, 100_000_000_000_000)
            &&& next.carry == earned - (next.accrued - data.accrued) * 100_000_000_000_000
        },
        shares >= 0 && data.index <= index && data.accrued + shares * (index - data.index)
            + data.carry <= i128::MAX ==> spec_update_user(data, shares, index) is Ok,
{
    let earned = shares * (index - data.index) + data.carry;
    if shares >= 0 && data.index <= index {
        assert(shares * (index - data.index) >= 0) by (nonlinear_arith)
            requires
                shares >= 0,
                index - data.index >= 0,
        ;
        lemma_floor(earned, 100_000_000_000_000);
        lemma_quotient_bounds(earned, 100_000_000_000_000);
        assert(trunc_div(earned, 100_000_000_000_000) == earned / 100_000_000_000_000);
    }
}

/// A claim from a registered pool whose weight may change pays what the user had accrued
/// and what the shares earned since, in whole tokens. Of what the user had only the
/// fraction stays, and the pool and the shares are as before.
pub proof fn law_claims_pay_what_was_earned(position: ClaimPosition, now: u64)
    requires
        position.well_formed(),
        position.pool_balance.shares - position.pool_balance.q4w <= i128::MAX,
    ensures
        spec_claim_one(position, now) matches Ok(claim) ==> {
            let before = record_of(position.user);
            let after = record_of(claim.user);
            &&& position.unregistered is None
            &&& position.standstill is None
            &&& claim.pool == position.pool
            &&& claim.pool_balance == position.pool_balance
            &&& claim.user_shares == position.user_shares
            &&& claim.weights == position.weights
            &&& after.accrued == 0
            &&& match (position.emission, claim.emission) {
                (None, None) => {
                    &&& claim.amount == before.accrued
                    &&& after.carry == before.carry
                    &&& after.index == before.index
                },
                (Some(data), Some(next)) => {
                    let earned = position.user_shares * (next.index - before.index)
                        + before.carry;
                    &&& spec_advance(data, position.pool_balance, now) == Ok::<
                        BackstopEmissionData,
                        BackstopError,
                    >(next)
                    &&& is_floor_of(claim.amount - before.accrued, earned, 100_000_000_000_000)
                    &&& after.carry == earned - (claim.amount - before.accrued)
                        * 100_000_000_000_000
                    &&& after.index == next.index
                },
                _ => false,
            }
        },
{
    if let Ok(claim) = spec_claim_one(position, now) {
        if let Some(data) = position.emission {
            let next = spec_advance(data, position.pool_balance, now)->Ok_0;
            law_users_earn_by_the_share(
                record_of(position.user),
                position.user_shares,
                next.index,
            );
        }
    }
}

/// What a stream has yet to pay: its rate for every second left, and what its rate left
/// over unless that was paid.
pub open spec fn left_to_pay(stream: Option<BackstopEmissionData>, now: u64) -> int {
    match stream {
        None => 0,
        Some(data) => if now < data.expiration {
            (data.expiration - now) * data.eps + data.schedule_carry
        } else if data.last_time < data.expiration {
            0
        } else {
            data.schedule_carry as int
        },
    }
}

/// A tier's stream takes up all that is pending: with what it has yet to pay it is spread
/// over the seven days from now, to the last unit. With nothing pending the stream only
/// comes up to date, and shares keep what they earned.
pub proof fn law_streams_take_up_all_that_is_pending(
    stream: Option<BackstopEmissionData>,
    pool: PoolBalance,
    pending: i128,
    now: u64,
)
    requires
        pool.shares - pool.q4w <= i128::MAX,
    ensures
        spec_set_eps(stream, pool, pending, now) matches Ok(after) ==> {
            &&& pending >= 0
            &&& pending > 0 ==> after is Some
            &&& stream is None && pending == 0 ==> after is None
            &&& after matches Some(next) ==> {
                &&& next.last_time == now
                &&& pending > 0 ==> {
                    &&& next.expiration == now + 604_800
                    &&& 0 <= next.schedule_carry < 604_800
                    &&& next.eps * 604_800 + next.schedule_carry == pending * 10_000_000
                        + left_to_pay(stream, now)
                }
                &&& stream is None ==> next.index == 0 && next.index_carry == 0
                &&& stream matches Some(data) ==> {
                    let counted = spec_advance(data, pool, now);
                    &&& counted is Ok
                    &&& next.index == counted->Ok_0.index
                    &&& next.index_carry == counted->Ok_0.index_carry
                    &&& pending == 0 ==> next == counted->Ok_0
                }
            }
        },
{
    if let Ok(after) = spec_set_eps(stream, pool, pending, now) {
        if pending > 0 {
            let next = after->Some_0;
            let total = pending * 10_000_000 + left_to_pay(stream, now);
            if let Some(data) = stream {
                law_streams_pay_by_the_second(data, pool, now);
                if now < data.expiration {
                    let secs = data.expiration - now;
                    assert(secs * data.eps >= 0) by (nonlinear_arith)
                        requires
                            secs >= 0,
                            data.eps >= 0,
                    ;
                }
            } else {
                assert(0 * 0int == 0);
            }
            lemma_quotient_bounds(total, 604_800);
        }
    }
}

/// A gulp hands over all that the pool was allocated: its own part raises the allowance by
/// exactly as much, and what is pending for each of its tiers goes into that tier's
/// stream. Nothing is handed over twice, and only once a day.
pub proof fn law_gulps_hand_over_all_that_was_allocated(
    is_pool: bool,
    streams: PoolStreams,
    blnd_usdc: PoolBalance,
    blnd_xlm: PoolBalance,
    allowance: i128,
    sequence: u32,
    ledgers: u32,
    now: u64,
)
    ensures
        spec_gulp(is_pool, streams, blnd_usdc, blnd_xlm, allowance, sequence, ledgers, now)
            matches Ok((result, after)) ==> {
            let state = streams.state;
            &&& is_pool
            &&& streams.last_gulp matches Some(last) ==> last + 86_400 <= now
            &&& result.pool == state.accrued_pool
            &&& result.backstop == state.pending_blnd_usdc + state.pending_blnd_xlm
            &&& result.pool >= 0 && result.backstop >= 0
            &&& result.pool > 0 ==> result.approval is Some
                && result.approval->Some_0.allowance - allowance == result.pool
                && result.approval->Some_0.expiration_ledger == sequence + ledgers
            &&& result.pool == 0 ==> result.approval is None
            &&& after.state == (PoolOngoingEmissions {
                accrued_pool: 0,
                pending_blnd_usdc: 0,
                pending_blnd_xlm: 0,
                ..state
            })
            &&& if result.pool == 0 && result.backstop == 0 {
                after == streams
            } else {
                &&& after.last_gulp == Some(now)
                &&& spec_set_eps(
                    streams.blnd_usdc,
                    blnd_usdc,
                    state.pending_blnd_usdc,
                    now,
                ) == Ok::<Option<BackstopEmissionData>, BackstopError>(after.blnd_usdc)
                &&& spec_set_eps(streams.blnd_xlm, blnd_xlm, state.pending_blnd_xlm, now) == Ok::<
                    Option<BackstopEmissionData>,
                    BackstopError,
                >(after.blnd_xlm)
            }
        },
{
}

/// One gulp of a pool: what it had, its tiers and its allowance then, when it was, and what
/// it was handed.
pub struct Gulp {
    pub streams: PoolStreams,
    pub blnd_usdc: PoolBalance,
    pub blnd_xlm: PoolBalance,
    pub allowance: i128,
    pub sequence: u32,
    pub now: u64,
    pub result: GulpResult,
}

impl Gulp {
    /// Whether it was handed what it was owed.
    pub open spec fn happened(self, ledgers: u32) -> bool {
        &&& spec_gulp(
            true,
            self.streams,
            self.blnd_usdc,
            self.blnd_xlm,
            self.allowance,
            self.sequence,
            ledgers,
            self.now,
        ) matches Ok((result, _))
        &&& result == self.result
    }

    /// The allowance that it left: the one approved, or the one before.
    pub open spec fn left(self) -> int {
        match self.result.approval {
            Some(approval) => approval.allowance as int,
            None => self.allowance as int,
        }
    }
}

/// What each gulp handed to the pool itself.
pub open spec fn pool_parts(gulps: Seq<Gulp>) -> Seq<int> {
    gulps.map_values(|gulp: Gulp| gulp.result.pool as int)
}

/// Over any run of gulps between which a pool spends nothing, its allowance grows by the
/// sum of all that it was handed.
pub proof fn law_allowances_add_up_over_gulps(gulps: Seq<Gulp>, ledgers: u32)
    requires
        gulps.len() > 0,
        forall|i: int| 0 <= i < gulps.len() ==> (#[trigger] gulps[i]).happened(ledgers),
        forall|i: int, j: int|
            0 <= i < gulps.len() && j == i + 1 && j < gulps.len() ==> (#[trigger] gulps[j]).allowance
                == (#[trigger] gulps[i]).left(),
    ensures
        gulps.last().left() == gulps[0].allowance + sum_of(pool_parts(gulps)),
    decreases gulps.len(),
{
    let init = gulps.drop_last();
    let n = gulps.len() - 1;
    assert(gulps[n].happened(ledgers));
    assert(gulps[n].left() == gulps[n].allowance + gulps[n].result.pool);
    assert(pool_parts(gulps).drop_last() =~= pool_parts(init));
    if n > 0 {
        assert(forall|i: int| 0 <= i < init.len() ==> #[trigger] init[i] == gulps[i]);
        law_allowances_add_up_over_gulps(init, ledgers);
        assert(gulps[n].allowance == gulps[n - 1].left());
    } else {
        assert(sum_of(pool_parts(init)) == 0);
    }
}

/// A registered pool is owed its gulp: one that is a day after the last, of a valid record,
/// into tiers whose streams can take up what is pending, with room for the allowance.
pub proof fn law_gulps_are_owed(
    streams: PoolStreams,
    blnd_usdc: PoolBalance,
    blnd_xlm: PoolBalance,
    allowance: i128,
    sequence: u32,
    ledgers: u32,
    now: u64,
)
    requires
        streams.last_gulp matches Some(last) ==> last + 86_400 <= now,
        streams.state.valid(),
        streams.state.pending_blnd_usdc + streams.state.pending_blnd_xlm <= i128::MAX,
        spec_set_eps(streams.blnd_usdc, blnd_usdc, streams.state.pending_blnd_usdc, now) is Ok,
        spec_set_eps(streams.blnd_xlm, blnd_xlm, streams.state.pending_blnd_xlm, now) is Ok,
        0 <= allowance,
        allowance + streams.state.accrued_pool <= i128::MAX,
        sequence + ledgers <= u32::MAX,
    ensures
        spec_gulp(true, streams, blnd_usdc, blnd_xlm, allowance, sequence, ledgers, now) is Ok,
{
}

/// A stream that can be brought up to date takes up what is pending, where the rate and the
/// time have room.
pub proof fn law_pending_emissions_are_streamed(
    stream: Option<BackstopEmissionData>,
    pool: PoolBalance,
    pending: i128,
    now: u64,
)
    requires
        pool.shares - pool.q4w <= i128::MAX,
        pending >= 0,
        stream matches Some(data) ==> spec_advance(data, pool, now) is Ok,
        pending * 10_000_000 + left_to_pay(stream, now) <= u64::MAX,
        now + 604_800 <= u64::MAX,
    ensures
        spec_set_eps(stream, pool, pending, now) is Ok,
{
    let total = pending * 10_000_000 + left_to_pay(stream, now);
    if let Some(data) = stream {
        law_streams_pay_by_the_second(data, pool, now);
        if now < data.expiration {
            let secs = data.expiration - now;
            assert(secs * data.eps >= 0) by (nonlinear_arith)
                requires
                    secs >= 0,
                    data.eps >= 0,
            ;
        }
    }
    lemma_quotient_bounds(total, 604_800);
}

} // verus!
