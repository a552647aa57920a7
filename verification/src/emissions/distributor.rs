//! Emission indexes by pool and tier.

use soroban_sdk::Env;
use vstd::prelude::*;

use super::policy::checked_add;
use crate::backstop::pool::PoolBalance;
use crate::constants::{SCALAR_14, SCALAR_7};
use crate::errors::BackstopError;
use crate::math::{
    fits_i128, fits_wide, lemma_product_fits, lemma_quotient_bounds, trunc_div, wide_add, wide_div,
    wide_from_i128, wide_mul, wide_sub, wide_to_i128, Wide,
};
use crate::storage::{BackstopEmissionData, UserEmissionData};

verus! {

/// The length of an emission stream: seven days.
pub const STREAM_SECONDS: u64 = 604_800;

impl BackstopEmissionData {
    /// No amount is negative, and what the rate leaves over is less than one unit per second.
    pub open spec fn well_formed(self) -> bool {
        0 <= self.index && 0 <= self.index_carry && 0 <= self.schedule_carry < STREAM_SECONDS
    }

    /// The time up to which the stream has run at `now`.
    pub open spec fn stream_end(self, now: u64) -> u64 {
        if now <= self.expiration {
            now
        } else {
            self.expiration
        }
    }

    /// What the stream emits from its last checkpoint up to `now`, with 7 decimals:
    /// its rate, and at its end what the rate has left over.
    pub open spec fn emitted(self, now: u64) -> int {
        let end = self.stream_end(now);
        if end <= self.last_time {
            0
        } else {
            (end - self.last_time) * self.eps + if end == self.expiration {
                self.schedule_carry as int
            } else {
                0
            }
        }
    }

    /// What the index has to spread over the active shares at `now`, with 14 decimals.
    pub open spec fn to_spread(self, now: u64) -> int {
        self.emitted(now) * SCALAR_7 + self.index_carry
    }
}

impl UserEmissionData {
    /// No amount is negative, and the carry is less than one token.
    pub open spec fn well_formed(self) -> bool {
        0 <= self.accrued && 0 <= self.carry < SCALAR_14 && 0 <= self.index
    }
}

/// The stream at `now`, with what it emitted spread over the active shares; where
/// there are none, what it emitted is lost.
pub open spec fn spec_advance(data: BackstopEmissionData, pool: PoolBalance, now: u64) -> Result<
    BackstopEmissionData,
    BackstopError,
> {
    let active = pool.shares - pool.q4w;
    let ran = data.stream_end(now) > data.last_time;
    let spreads = active > 0 && ran;
    let increment = data.to_spread(now) / active;
    if !data.well_formed() || data.last_time > now || active < 0 {
        Err(BackstopError::InvalidEmissionValue)
    } else if spreads && (!fits_i128(increment) || !fits_i128(data.index + increment)) {
        Err(BackstopError::OverflowError)
    } else {
        Ok(
            BackstopEmissionData {
                eps: data.eps,
                expiration: data.expiration,
                index: if spreads {
                    (data.index + increment) as i128
                } else {
                    data.index
                },
                index_carry: if spreads {
                    (data.to_spread(now) % active) as i128
                } else {
                    data.index_carry
                },
                last_time: now,
                schedule_carry: if ran && data.stream_end(now) == data.expiration {
                    0
                } else {
                    data.schedule_carry
                },
            },
        )
    }
}

fn validate_emission_data(data: &BackstopEmissionData) -> (r: Result<(), BackstopError>)
    ensures
        r == if data.well_formed() {
            Ok(())
        } else {
            Err(BackstopError::InvalidEmissionValue)
        },
{
    if data.index < 0 || data.index_carry < 0 || data.schedule_carry < 0 || data.schedule_carry
        >= STREAM_SECONDS as i128 {
        return Err(BackstopError::InvalidEmissionValue);
    }
    Ok(())
}

fn validate_user_data(data: &UserEmissionData) -> (r: Result<(), BackstopError>)
    ensures
        r == if data.well_formed() {
            Ok(())
        } else {
            Err(BackstopError::InvalidEmissionValue)
        },
{
    if data.accrued < 0 || data.carry < 0 || data.carry >= SCALAR_14 || data.index < 0 {
        return Err(BackstopError::InvalidEmissionValue);
    }
    Ok(())
}

proof fn lemma_emitted_bounds(data: BackstopEmissionData, now: u64)
    requires
        data.well_formed(),
    ensures
        0 <= data.emitted(now) <= 0x1_0000_0000_0000_0000_0000_0000_0000_0000int,
        0 <= data.to_spread(now),
        fits_wide(data.to_spread(now)),
{
    let end = data.stream_end(now);
    if end > data.last_time {
        let seconds = end - data.last_time;
        assert(0 <= seconds * data.eps <= 0xffff_ffff_ffff_ffffint * 0xffff_ffff_ffff_ffffint)
            by (nonlinear_arith)
            requires
                0 <= seconds <= 0xffff_ffff_ffff_ffffint,
                0 <= data.eps <= 0xffff_ffff_ffff_ffffint,
        ;
    }
}

/// Divide what is to be spread by a divisor, with the remainder.
fn wide_div_rem(e: &Env, numerator: Wide, divisor: i128) -> (r: Result<
    (i128, i128),
    BackstopError,
>)
    requires
        divisor > 0,
        numerator.value() >= 0,
    ensures
        match r {
            Ok(parts) => {
                &&& parts.0 == numerator.value() / divisor as int
                &&& parts.1 == numerator.value() % divisor as int
            },
            Err(error) => {
                &&& error == BackstopError::OverflowError
                &&& !fits_i128(numerator.value() / divisor as int)
            },
        },
{
    proof {
        lemma_quotient_bounds(numerator.value(), divisor as int);
        lemma_wide_value_fits(numerator);
    }
    let denominator: Wide = wide_from_i128(e, divisor);
    let quotient: i128 = match wide_to_i128(e, wide_div(e, numerator, denominator)) {
        Some(quotient) => quotient,
        None => return Err(BackstopError::OverflowError),
    };
    proof {
        lemma_product_fits(quotient as int, divisor as int);
    }
    let product: Wide = wide_mul(e, wide_from_i128(e, quotient), denominator);
    match wide_to_i128(e, wide_sub(e, numerator, product)) {
        Some(remainder) => Ok((quotient, remainder)),
        None => Err(BackstopError::OverflowError),
    }
}

/// Every 256-bit integer fits in 256 bits.
proof fn lemma_wide_value_fits(x: Wide)
    ensures
        fits_wide(x.value()),
{
}

/// Bring a stream up to date.
pub fn advance_emission_data(
    e: &Env,
    data: &BackstopEmissionData,
    pool_balance: &PoolBalance,
    now: u64,
) -> (r: Result<BackstopEmissionData, BackstopError>)
    requires
        pool_balance.shares >= pool_balance.q4w ==> fits_i128(
            pool_balance.shares - pool_balance.q4w,
        ),
    ensures
        r == spec_advance(*data, *pool_balance, now),
        r matches Ok(next) ==> next.well_formed(),
{
    validate_emission_data(data)?;
    if data.last_time > now || pool_balance.shares < pool_balance.q4w {
        return Err(BackstopError::InvalidEmissionValue);
    }
    let stream_end: u64 = if now <= data.expiration {
        now
    } else {
        data.expiration
    };
    let active_shares: i128 = pool_balance.shares - pool_balance.q4w;
    let mut next: BackstopEmissionData = *data;
    if active_shares > 0 && stream_end > data.last_time {
        proof {
            lemma_emitted_bounds(*data, now);
            lemma_product_fits((stream_end - data.last_time) as int, data.eps as int);
        }
        let ran: Wide = wide_mul(
            e,
            wide_from_i128(e, (stream_end - data.last_time) as i128),
            wide_from_i128(e, data.eps as i128),
        );
        let left_over: Wide = if stream_end == data.expiration {
            wide_from_i128(e, data.schedule_carry)
        } else {
            wide_from_i128(e, 0)
        };
        let emitted: Wide = wide_add(e, ran, left_over);
        assert(emitted.value() == data.emitted(now));
        let scaled: Wide = wide_mul(e, emitted, wide_from_i128(e, SCALAR_7));
        let numerator: Wide = wide_add(e, scaled, wide_from_i128(e, data.index_carry));
        assert(numerator.value() == data.to_spread(now));
        let parts: (i128, i128) = wide_div_rem(e, numerator, active_shares)?;
        proof {
            lemma_quotient_bounds(data.to_spread(now), active_shares as int);
        }
        next.index_carry = parts.1;
        next.index = checked_add(data.index, parts.0)?;
    }
    if stream_end == data.expiration && stream_end > data.last_time {
        next.schedule_carry = 0;
    }
    next.last_time = now;
    Ok(next)
}

/// A user without a record has earned nothing.
pub open spec fn spec_empty_user_data() -> UserEmissionData {
    UserEmissionData { accrued: 0, carry: 0, index: 0 }
}

/// A user without a record has earned nothing.
pub fn empty_user_data() -> (r: UserEmissionData)
    ensures
        r == spec_empty_user_data(),
{
    UserEmissionData { accrued: 0, carry: 0, index: 0 }
}

/// The user's record at the stream's index `current_index`.
pub open spec fn spec_update_user(
    data: UserEmissionData,
    shares: i128,
    current_index: i128,
) -> Result<UserEmissionData, BackstopError> {
    let earned = shares * (current_index - data.index) + data.carry;
    let tokens = trunc_div(earned, SCALAR_14 as int);
    let next = UserEmissionData {
        accrued: (data.accrued + tokens) as i128,
        carry: (earned - tokens * SCALAR_14) as i128,
        index: current_index,
    };
    if shares < 0 || current_index < data.index {
        Err(BackstopError::InvalidEmissionValue)
    } else if !fits_i128(tokens) || !fits_i128(data.accrued + tokens) {
        Err(BackstopError::OverflowError)
    } else if !next.well_formed() {
        Err(BackstopError::InvalidEmissionValue)
    } else {
        Ok(next)
    }
}

proof fn lemma_trunc_remainder(n: int, d: int)
    requires
        d > 0,
    ensures
        -d < n - trunc_div(n, d) * d < d,
        n >= 0 ==> 0 <= trunc_div(n, d) <= n && n - trunc_div(n, d) * d == n % d,
        n < 0 ==> n <= trunc_div(n, d) <= 0,
{
    if n >= 0 {
        lemma_quotient_bounds(n, d);
    } else {
        lemma_quotient_bounds(-n, d);
        let q = (-n) / d;
        assert((-q) * d == -(q * d)) by (nonlinear_arith);
    }
}

/// Bring a user's record up to the index of the stream.
pub fn update_user_emissions(
    e: &Env,
    data: &UserEmissionData,
    user_shares: i128,
    current_index: i128,
) -> (r: Result<UserEmissionData, BackstopError>)
    requires
        current_index >= data.index ==> fits_i128(current_index - data.index),
    ensures
        r == spec_update_user(*data, user_shares, current_index),
        r matches Ok(next) ==> next.well_formed(),
{
    if user_shares < 0 || current_index < data.index {
        return Err(BackstopError::InvalidEmissionValue);
    }
    let gained: i128 = current_index - data.index;
    let ghost earned = user_shares * gained + data.carry;
    proof {
        lemma_product_fits(user_shares as int, gained as int);
        lemma_trunc_remainder(earned, SCALAR_14 as int);
    }
    let product: Wide = wide_mul(e, wide_from_i128(e, user_shares), wide_from_i128(e, gained));
    let numerator: Wide = wide_add(e, product, wide_from_i128(e, data.carry));
    let scale: Wide = wide_from_i128(e, SCALAR_14);
    let tokens: i128 = match wide_to_i128(e, wide_div(e, numerator, scale)) {
        Some(tokens) => tokens,
        None => return Err(BackstopError::OverflowError),
    };
    proof {
        lemma_product_fits(tokens as int, SCALAR_14 as int);
    }
    let whole: Wide = wide_mul(e, wide_from_i128(e, tokens), scale);
    let carry: i128 = match wide_to_i128(e, wide_sub(e, numerator, whole)) {
        Some(carry) => carry,
        None => return Err(BackstopError::OverflowError),
    };
    let accrued: i128 = checked_add(data.accrued, tokens)?;
    let next = UserEmissionData { accrued, carry, index: current_index };
    validate_user_data(&next)?;
    Ok(next)
}

/// The user's record on file, or an empty one.
pub open spec fn record_of(user: Option<UserEmissionData>) -> UserEmissionData {
    match user {
        Some(data) => data,
        None => spec_empty_user_data(),
    }
}

/// The user's record on file, or an empty one.
fn record_or_empty(user: &Option<UserEmissionData>) -> (r: UserEmissionData)
    ensures
        r == record_of(*user),
{
    match user {
        Some(data) => *data,
        None => empty_user_data(),
    }
}

/// The stream and the user's record after a checkpoint; without a stream neither changes.
pub open spec fn spec_checkpoint(
    emission: Option<BackstopEmissionData>,
    user: Option<UserEmissionData>,
    pool: PoolBalance,
    shares: i128,
    now: u64,
) -> Result<(Option<BackstopEmissionData>, Option<UserEmissionData>), BackstopError> {
    match emission {
        None => Ok((None, user)),
        Some(data) => match spec_advance(data, pool, now) {
            Err(error) => Err(error),
            Ok(next) => match spec_update_user(record_of(user), shares, next.index) {
                Err(error) => Err(error),
                Ok(record) => Ok((Some(next), Some(record))),
            },
        },
    }
}

/// What the records have to meet for a checkpoint to be computed.
pub open spec fn checkpoint_fits(
    user: Option<UserEmissionData>,
    pool: PoolBalance,
) -> bool {
    &&& pool.shares >= pool.q4w ==> fits_i128(pool.shares - pool.q4w)
    &&& user matches Some(record) ==> 0 <= record.index
}

/// Bring a stream and a user's record up to date and return the record.
pub fn update_emissions(
    e: &Env,
    emission: &mut Option<BackstopEmissionData>,
    user: &mut Option<UserEmissionData>,
    pool_balance: &PoolBalance,
    user_shares: i128,
    now: u64,
) -> (r: Result<UserEmissionData, BackstopError>)
    requires
        checkpoint_fits(*old(user), *pool_balance),
    ensures
        match spec_checkpoint(
            *old(emission),
            *old(user),
            *pool_balance,
            user_shares,
            now,
        ) {
            Err(error) => {
                &&& r == Err::<UserEmissionData, BackstopError>(error)
                &&& *final(emission) == *old(emission)
                &&& *final(user) == *old(user)
            },
            Ok(next) => {
                &&& *final(emission) == next.0
                &&& *final(user) == next.1
                &&& r == Ok::<UserEmissionData, BackstopError>(record_of(next.1))
            },
        },
{
    let record: UserEmissionData = record_or_empty(&*user);
    let data: BackstopEmissionData = match &*emission {
        None => return Ok(record),
        Some(data) => *data,
    };
    let next: BackstopEmissionData = advance_emission_data(e, &data, pool_balance, now)?;
    let updated: UserEmissionData = update_user_emissions(e, &record, user_shares, next.index)?;
    *emission = Some(next);
    *user = Some(updated);
    Ok(updated)
}

/// What a user's record would be now, with nothing changed; the index of a stream
/// that does not exist is zero.
pub fn preview_user_emissions(
    e: &Env,
    emission: &Option<BackstopEmissionData>,
    user: &Option<UserEmissionData>,
    pool_balance: &PoolBalance,
    user_shares: i128,
    now: u64,
) -> (r: Result<UserEmissionData, BackstopError>)
    requires
        checkpoint_fits(*user, *pool_balance),
    ensures
        r == match *emission {
            None => spec_update_user(record_of(*user), user_shares, 0),
            Some(data) => match spec_advance(data, *pool_balance, now) {
                Err(error) => Err(error),
                Ok(next) => spec_update_user(record_of(*user), user_shares, next.index),
            },
        },
{
    let current_index: i128 = match emission {
        None => 0,
        Some(data) => advance_emission_data(e, data, pool_balance, now)?.index,
    };
    let record: UserEmissionData = record_or_empty(user);
    update_user_emissions(e, &record, user_shares, current_index)
}

/// A user's record with nothing left to claim.
pub open spec fn spec_after_claim(user: Option<UserEmissionData>) -> Option<UserEmissionData> {
    match user {
        Some(record) if record.accrued > 0 => Some(UserEmissionData { accrued: 0, ..record }),
        _ => user,
    }
}

/// Bring a user's record up to date and take out what it has accrued.
pub fn claim_emissions(
    e: &Env,
    emission: &mut Option<BackstopEmissionData>,
    user: &mut Option<UserEmissionData>,
    pool_balance: &PoolBalance,
    user_shares: i128,
    now: u64,
) -> (r: Result<i128, BackstopError>)
    requires
        checkpoint_fits(*old(user), *pool_balance),
    ensures
        match spec_checkpoint(
            *old(emission),
            *old(user),
            *pool_balance,
            user_shares,
            now,
        ) {
            Err(error) => {
                &&& r == Err::<i128, BackstopError>(error)
                &&& *final(emission) == *old(emission)
                &&& *final(user) == *old(user)
            },
            Ok(next) => {
                &&& *final(emission) == next.0
                &&& *final(user) == spec_after_claim(next.1)
                &&& r == Ok::<i128, BackstopError>(record_of(next.1).accrued)
            },
        },
{
    let record: UserEmissionData = update_emissions(
        e,
        emission,
        user,
        pool_balance,
        user_shares,
        now,
    )?;
    let accrued: i128 = record.accrued;
    if accrued > 0 {
        *user = Some(UserEmissionData { accrued: 0, carry: record.carry, index: record.index });
    }
    Ok(accrued)
}

/// A stream that has not started.
pub open spec fn spec_new_stream(now: u64) -> BackstopEmissionData {
    BackstopEmissionData {
        eps: 0,
        expiration: 0,
        index: 0,
        index_carry: 0,
        last_time: now,
        schedule_carry: 0,
    }
}

/// What a stream has to emit from now on with `pending` more tokens, with 7 decimals.
pub open spec fn spec_scheduled(data: BackstopEmissionData, pending: int, now: u64) -> int {
    let remaining = if data.expiration > now {
        data.expiration - now
    } else {
        0
    };
    pending * SCALAR_7 + remaining * data.eps + data.schedule_carry
}

/// The stream that emits what is scheduled over the next seven days.
pub open spec fn spec_reschedule(data: BackstopEmissionData, pending: int, now: u64) -> Result<
    BackstopEmissionData,
    BackstopError,
> {
    let total = spec_scheduled(data, pending, now);
    let eps = total / STREAM_SECONDS as int;
    if eps > u64::MAX || now + STREAM_SECONDS > u64::MAX {
        Err(BackstopError::OverflowError)
    } else {
        Ok(
            BackstopEmissionData {
                eps: eps as u64,
                expiration: (now + STREAM_SECONDS) as u64,
                index: data.index,
                index_carry: data.index_carry,
                last_time: now,
                schedule_carry: (total % STREAM_SECONDS as int) as i128,
            },
        )
    }
}

/// The stream after `pending` tokens have been added; nothing pending only brings
/// it up to date.
pub open spec fn spec_set_eps(
    emission: Option<BackstopEmissionData>,
    pool: PoolBalance,
    pending: i128,
    now: u64,
) -> Result<Option<BackstopEmissionData>, BackstopError> {
    if pending < 0 {
        Err(BackstopError::InvalidEmissionValue)
    } else {
        let advanced = match emission {
            None => Ok(None),
            Some(data) => match spec_advance(data, pool, now) {
                Ok(next) => Ok(Some(next)),
                Err(error) => Err(error),
            },
        };
        match advanced {
            Err(error) => Err(error),
            Ok(existing) => if pending == 0 {
                Ok(existing)
            } else {
                let data = match existing {
                    Some(data) => data,
                    None => spec_new_stream(now),
                };
                match spec_reschedule(data, pending as int, now) {
                    Ok(next) => Ok(Some(next)),
                    Err(error) => Err(error),
                }
            },
        }
    }
}

/// Spread what is scheduled over the next seven days.
fn reschedule(e: &Env, data: &BackstopEmissionData, pending: i128, now: u64) -> (r: Result<
    BackstopEmissionData,
    BackstopError,
>)
    requires
        data.well_formed(),
        pending > 0,
    ensures
        r == spec_reschedule(*data, pending as int, now),
        r matches Ok(next) ==> next.well_formed(),
{
    let remaining_seconds: u64 = if data.expiration > now {
        data.expiration - now
    } else {
        0
    };
    let ghost total = spec_scheduled(*data, pending as int, now);
    proof {
        lemma_product_fits(pending as int, SCALAR_7 as int);
        lemma_product_fits(remaining_seconds as int, data.eps as int);
        assert(0 <= pending * SCALAR_7 <= i128::MAX * SCALAR_7) by (nonlinear_arith)
            requires
                0 <= pending <= i128::MAX,
                SCALAR_7 == 10_000_000,
        ;
        assert(0 <= remaining_seconds * data.eps <= 0xffff_ffff_ffff_ffffint
            * 0xffff_ffff_ffff_ffffint) by (nonlinear_arith)
            requires
                0 <= remaining_seconds <= 0xffff_ffff_ffff_ffffint,
                0 <= data.eps <= 0xffff_ffff_ffff_ffffint,
        ;
        lemma_quotient_bounds(total, STREAM_SECONDS as int);
    }
    let added: Wide = wide_mul(e, wide_from_i128(e, pending), wide_from_i128(e, SCALAR_7));
    let left: Wide = wide_mul(
        e,
        wide_from_i128(e, remaining_seconds as i128),
        wide_from_i128(e, data.eps as i128),
    );
    let scaled_total: Wide = wide_add(
        e,
        wide_add(e, added, left),
        wide_from_i128(e, data.schedule_carry),
    );
    assert(scaled_total.value() == total);
    let parts: (i128, i128) = wide_div_rem(e, scaled_total, STREAM_SECONDS as i128)?;
    if parts.0 > u64::MAX as i128 {
        return Err(BackstopError::OverflowError);
    }
    let expiration: u64 = match now.checked_add(STREAM_SECONDS) {
        Some(expiration) => expiration,
        None => return Err(BackstopError::OverflowError),
    };
    let next = BackstopEmissionData {
        eps: parts.0 as u64,
        expiration,
        index: data.index,
        index_carry: data.index_carry,
        last_time: now,
        schedule_carry: parts.1,
    };
    validate_emission_data(&next)?;
    Ok(next)
}

/// Add tokens to a stream and spread all that it has left to emit over the next seven days.
pub fn set_backstop_emission_eps(
    e: &Env,
    emission: &mut Option<BackstopEmissionData>,
    pool_balance: &PoolBalance,
    pending: i128,
    now: u64,
) -> (r: Result<(), BackstopError>)
    requires
        pool_balance.shares >= pool_balance.q4w ==> fits_i128(
            pool_balance.shares - pool_balance.q4w,
        ),
    ensures
        match spec_set_eps(*old(emission), *pool_balance, pending, now) {
            Err(error) => {
                &&& r == Err::<(), BackstopError>(error)
                &&& *final(emission) == *old(emission)
            },
            Ok(next) => {
                &&& r == Ok::<(), BackstopError>(())
                &&& *final(emission) == next
            },
        },
{
    if pending < 0 {
        return Err(BackstopError::InvalidEmissionValue);
    }
    let existing: Option<BackstopEmissionData> = match &*emission {
        None => None,
        Some(data) => Some(advance_emission_data(e, data, pool_balance, now)?),
    };
    if pending == 0 {
        *emission = existing;
        return Ok(());
    }
    let data: BackstopEmissionData = match existing {
        Some(data) => data,
        None => BackstopEmissionData {
            eps: 0,
            expiration: 0,
            index: 0,
            index_carry: 0,
            last_time: now,
            schedule_carry: 0,
        },
    };
    let next: BackstopEmissionData = reschedule(e, &data, pending, now)?;
    *emission = Some(next);
    Ok(())
}

/// A rescheduled stream emits, up to its end, exactly what was left of the old
/// one and the tokens added.
pub proof fn law_reschedule_conserves_the_schedule(
    data: BackstopEmissionData,
    pending: int,
    now: u64,
)
    requires
        data.well_formed(),
        pending > 0,
    ensures
        spec_reschedule(data, pending, now) matches Ok(next) ==> next.emitted(next.expiration)
            == spec_scheduled(data, pending, now),
{
    let total = spec_scheduled(data, pending, now);
    let remaining = if data.expiration > now {
        data.expiration - now
    } else {
        0
    };
    assert(remaining * data.eps >= 0) by (nonlinear_arith)
        requires
            remaining >= 0,
            data.eps >= 0,
    ;
    lemma_quotient_bounds(total, STREAM_SECONDS as int);
    if let Ok(next) = spec_reschedule(data, pending, now) {
        assert((next.expiration - next.last_time) * next.eps == next.eps * STREAM_SECONDS)
            by (nonlinear_arith)
            requires
                next.expiration - next.last_time == STREAM_SECONDS,
        ;
        assert((total / STREAM_SECONDS as int) * STREAM_SECONDS == next.eps * STREAM_SECONDS);
    }
}

/// What the index spreads and what it keeps back is exactly what the stream emitted.
pub proof fn law_index_conserves_emissions(
    data: BackstopEmissionData,
    pool: PoolBalance,
    now: u64,
)
    requires
        pool.well_formed(),
        pool.shares > pool.q4w,
    ensures
        spec_advance(data, pool, now) matches Ok(next) ==> {
            &&& (next.index - data.index) * (pool.shares - pool.q4w) + next.index_carry
                == data.emitted(now) * SCALAR_7 + data.index_carry
            &&& next.index >= data.index
        },
{
    if let Ok(next) = spec_advance(data, pool, now) {
        let active = pool.shares - pool.q4w;
        if data.stream_end(now) > data.last_time {
            lemma_emitted_bounds(data, now);
            lemma_quotient_bounds(data.to_spread(now), active);
        } else {
            assert((next.index - data.index) * active == 0) by (nonlinear_arith)
                requires
                    next.index - data.index == 0,
            ;
        }
    }
}

/// What a stream emits does not depend on when it is checkpointed in between.
pub proof fn law_checkpoints_do_not_change_what_is_emitted(
    data: BackstopEmissionData,
    pool: PoolBalance,
    middle: u64,
    now: u64,
)
    requires
        data.last_time <= middle <= now,
    ensures
        spec_advance(data, pool, middle) matches Ok(next) ==> data.emitted(middle) + next.emitted(
            now,
        ) == data.emitted(now),
{
    if let Ok(next) = spec_advance(data, pool, middle) {
        let e1 = data.stream_end(middle);
        let e2 = data.stream_end(now);
        if e2 > middle {
            let a = middle - data.last_time;
            let b = e2 - middle;
            assert((a + b) * data.eps == a * data.eps + b * data.eps) by (nonlinear_arith);
            if middle == data.last_time {
                assert(a * data.eps == 0) by (nonlinear_arith)
                    requires
                        a == 0,
                ;
            }
        }
    }
}

/// The index does not depend on when it is checkpointed in between, while the
/// active shares stay the same.
pub proof fn law_checkpoints_do_not_change_the_index(
    data: BackstopEmissionData,
    pool: PoolBalance,
    middle: u64,
    now: u64,
)
    requires
        data.last_time <= middle <= now,
        pool.well_formed(),
    ensures
        spec_advance(data, pool, middle) matches Ok(first) ==> (spec_advance(first, pool, now)
            matches Ok(second) ==> spec_advance(data, pool, now) == Ok::<
            BackstopEmissionData,
            BackstopError,
        >(second)),
{
    if let Ok(first) = spec_advance(data, pool, middle) {
        if let Ok(second) = spec_advance(first, pool, now) {
            let active = pool.shares - pool.q4w;
            if active > 0 {
                law_checkpoints_do_not_change_what_is_emitted(data, pool, middle, now);
                law_index_conserves_emissions(data, pool, middle);
                law_index_conserves_emissions(first, pool, now);
                lemma_emitted_bounds(data, now);
                lemma_emitted_bounds(data, middle);
                lemma_emitted_bounds(first, now);
                lemma_quotient_bounds(data.to_spread(now), active);
                lemma_quotient_bounds(data.to_spread(middle), active);
                lemma_quotient_bounds(first.to_spread(now), active);
            }
            if active > 0 && data.stream_end(now) > data.last_time {
                let gained = second.index - data.index;
                let x = first.index - data.index;
                let y = second.index - first.index;
                assert(gained * active == x * active + y * active) by (nonlinear_arith)
                    requires
                        gained == x + y,
                ;
                assert(0 <= second.index_carry < active);
                assert(data.to_spread(now) == gained * active + second.index_carry);
                let q = data.to_spread(now) / active;
                let r = data.to_spread(now) % active;
                assert(q == gained && r == second.index_carry) by (nonlinear_arith)
                    requires
                        q * active + r == gained * active + second.index_carry,
                        0 <= r < active,
                        0 <= second.index_carry < active,
                ;
            }
        }
    }
}

/// What a user accrues and carries on is exactly what the user's shares earned.
pub proof fn law_user_earnings_are_conserved(
    data: UserEmissionData,
    shares: i128,
    current_index: i128,
)
    requires
        data.well_formed(),
    ensures
        spec_update_user(data, shares, current_index) matches Ok(next) ==> {
            &&& (next.accrued - data.accrued) * SCALAR_14 + next.carry == shares * (current_index
                - data.index) + data.carry
            &&& next.accrued >= data.accrued
        },
{
    if let Ok(next) = spec_update_user(data, shares, current_index) {
        let gained = current_index - data.index;
        let earned = shares * gained + data.carry;
        assert(shares * gained >= 0) by (nonlinear_arith)
            requires
                shares >= 0,
                gained >= 0,
        ;
        lemma_trunc_remainder(earned, SCALAR_14 as int);
    }
}

/// The shares of several users.
pub open spec fn shares_of(users: Seq<(UserEmissionData, i128)>) -> int
    decreases users.len(),
{
    if users.len() == 0 {
        0
    } else {
        shares_of(users.drop_last()) + users.last().1
    }
}

/// What several users have been credited and carry on, with 14 decimals.
pub open spec fn credited_to(records: Seq<UserEmissionData>) -> int
    decreases records.len(),
{
    if records.len() == 0 {
        0
    } else {
        credited_to(records.drop_last()) + records.last().accrued * SCALAR_14
            + records.last().carry
    }
}

/// The records of several users.
pub open spec fn records_of(users: Seq<(UserEmissionData, i128)>) -> Seq<UserEmissionData> {
    users.map_values(|user: (UserEmissionData, i128)| user.0)
}

/// Whether `records` are those of the users, brought up to an index.
pub open spec fn records_at(
    records: Seq<UserEmissionData>,
    users: Seq<(UserEmissionData, i128)>,
    index: i128,
) -> bool {
    &&& records.len() == users.len()
    &&& forall|i: int|
        0 <= i < users.len() ==> spec_update_user(users[i].0, users[i].1, index) == Ok::<
            UserEmissionData,
            BackstopError,
        >(#[trigger] records[i])
}

/// Users who start at one index are together credited with their shares of its gain.
proof fn lemma_credits_follow_shares(
    records: Seq<UserEmissionData>,
    users: Seq<(UserEmissionData, i128)>,
    before: i128,
    index: i128,
)
    requires
        records_at(records, users, index),
        forall|i: int|
            0 <= i < users.len() ==> (#[trigger] users[i]).0.well_formed() && users[i].0.index
                == before,
    ensures
        credited_to(records) == credited_to(records_of(users)) + shares_of(users) * (index
            - before),
    decreases users.len(),
{
    if users.len() > 0 {
        let n = users.len() - 1;
        let init = users.drop_last();
        assert(forall|i: int| 0 <= i < init.len() ==> #[trigger] init[i] == users[i]);
        assert(records_at(records.drop_last(), init, index)) by {
            assert(forall|i: int|
                0 <= i < init.len() ==> #[trigger] records.drop_last()[i] == records[i]);
        }
        lemma_credits_follow_shares(records.drop_last(), init, before, index);
        law_user_earnings_are_conserved(users[n].0, users[n].1, index);
        assert(records[n] == records.last());
        assert(records_of(users).drop_last() =~= records_of(init));
        let gain = index - before;
        assert((shares_of(init) + users[n].1) * gain == shares_of(init) * gain + users[n].1 * gain)
            by (nonlinear_arith);
        assert((records[n].accrued - users[n].0.accrued) * SCALAR_14 == records[n].accrued
            * SCALAR_14 - users[n].0.accrued * SCALAR_14) by (nonlinear_arith);
    } else {
        assert(0 * (index - before) == 0);
    }
}

/// However many users share a stream, with no more than its active shares between
/// them, they are together credited with no more than it emitted and had carried on.
pub proof fn law_users_share_what_was_emitted(
    data: BackstopEmissionData,
    pool: PoolBalance,
    now: u64,
    next: BackstopEmissionData,
    users: Seq<(UserEmissionData, i128)>,
    records: Seq<UserEmissionData>,
)
    requires
        pool.well_formed(),
        pool.shares > pool.q4w,
        spec_advance(data, pool, now) == Ok::<BackstopEmissionData, BackstopError>(next),
        forall|i: int|
            0 <= i < users.len() ==> (#[trigger] users[i]).0.well_formed() && users[i].0.index
                == data.index,
        shares_of(users) <= pool.shares - pool.q4w,
        records_at(records, users, next.index),
    ensures
        credited_to(records) - credited_to(records_of(users)) <= data.emitted(now) * SCALAR_7
            + data.index_carry - next.index_carry,
{
    law_index_conserves_emissions(data, pool, now);
    lemma_credits_follow_shares(records, users, data.index, next.index);
    let gain = next.index - data.index;
    assert(shares_of(users) * gain <= (pool.shares - pool.q4w) * gain) by (nonlinear_arith)
        requires
            shares_of(users) <= pool.shares - pool.q4w,
            gain >= 0,
    ;
    assert((pool.shares - pool.q4w) * gain == gain * (pool.shares - pool.q4w))
        by (nonlinear_arith);
}

/// A user accrues the same however often the record is brought up to date in between.
pub proof fn law_user_checkpoints_do_not_change_earnings(
    data: UserEmissionData,
    shares: i128,
    middle: i128,
    current_index: i128,
)
    requires
        data.well_formed(),
        data.index <= middle <= current_index,
    ensures
        spec_update_user(data, shares, middle) matches Ok(first) ==> (spec_update_user(
            first,
            shares,
            current_index,
        ) matches Ok(second) ==> spec_update_user(data, shares, current_index) == Ok::<
            UserEmissionData,
            BackstopError,
        >(second)),
{
    if let Ok(first) = spec_update_user(data, shares, middle) {
        if let Ok(second) = spec_update_user(first, shares, current_index) {
            law_user_earnings_are_conserved(data, shares, middle);
            law_user_earnings_are_conserved(first, shares, current_index);
            let a = middle - data.index;
            let b = current_index - middle;
            let gained = current_index - data.index;
            let earned = shares * gained + data.carry;
            assert(shares * gained == shares * a + shares * b && shares * gained >= 0)
                by (nonlinear_arith)
                requires
                    gained == a + b,
                    shares >= 0,
                    a >= 0,
                    b >= 0,
            ;
            let tokens = second.accrued - data.accrued;
            assert(tokens * SCALAR_14 + second.carry == earned);
            lemma_trunc_remainder(earned, SCALAR_14 as int);
            let q = trunc_div(earned, SCALAR_14 as int);
            assert(q == tokens);
        }
    }
}

/// Where there is a stream, a preview shows the record that a checkpoint then leaves.
pub proof fn law_preview_shows_the_checkpoint(
    data: BackstopEmissionData,
    user: Option<UserEmissionData>,
    pool: PoolBalance,
    shares: i128,
    now: u64,
)
    ensures
        spec_checkpoint(Some(data), user, pool, shares, now) matches Ok(next) ==> {
            &&& next.0 is Some
            &&& next.1 == Some(
                spec_update_user(
                    record_of(user),
                    shares,
                    spec_advance(data, pool, now)->Ok_0.index,
                )->Ok_0,
            )
        },
{
}

/// Once a record is claimed from, it earns nothing more at the same time and neither it
/// nor the stream changes, however many shares the user and the pool have gained by then.
pub proof fn law_a_claimed_record_earns_nothing_at_once(
    emission: Option<BackstopEmissionData>,
    user: Option<UserEmissionData>,
    pool: PoolBalance,
    shares: i128,
    pool_after: PoolBalance,
    shares_after: i128,
    now: u64,
)
    requires
        pool.well_formed(),
        user matches Some(record) ==> record.well_formed(),
        pool_after.shares >= pool_after.q4w,
        shares_after >= shares,
    ensures
        spec_checkpoint(emission, user, pool, shares, now) matches Ok(first) ==> {
            let claimed = spec_after_claim(first.1);
            &&& record_of(claimed).accrued == 0
            &&& spec_checkpoint(first.0, claimed, pool_after, shares_after, now) == Ok::<
                (Option<BackstopEmissionData>, Option<UserEmissionData>),
                BackstopError,
            >((first.0, claimed))
        },
{
    if let Ok(first) = spec_checkpoint(emission, user, pool, shares, now) {
        if let Some(data) = emission {
            let next = first.0->Some_0;
            let claimed = spec_after_claim(first.1)->Some_0;
            assert(next.stream_end(now) <= next.last_time);
            assert(next.well_formed()) by {
                lemma_emitted_bounds(data, now);
                if pool.shares > pool.q4w && data.stream_end(now) > data.last_time {
                    lemma_quotient_bounds(data.to_spread(now), pool.shares - pool.q4w);
                }
            }
            let earned = shares_after * (next.index - claimed.index) + claimed.carry;
            assert(shares_after * (next.index - claimed.index) == 0) by (nonlinear_arith)
                requires
                    next.index - claimed.index == 0,
            ;
            assert(trunc_div(earned, SCALAR_14 as int) == 0);
        }
    }
}

} // verus!
