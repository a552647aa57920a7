//! How emissions are split and weighted.

use soroban_sdk::Env;
use vstd::prelude::*;

use crate::backstop::pool::PoolBalance;
use crate::errors::BackstopError;
use crate::math::{fits_i128, lemma_quotient_bounds, mul_div_floor};

verus! {

/// Numerator of the backstop's part of ongoing emissions.
pub const BACKSTOP_EMISSION_NUMERATOR: i128 = 7;

/// Numerator of the pools' part of ongoing emissions.
pub const POOL_EMISSION_NUMERATOR: i128 = 3;

/// Denominator of the two parts.
pub const EMISSION_SPLIT_DENOMINATOR: i128 = 10;

/// The sum of two amounts, an overflow where an `i128` cannot hold it.
pub open spec fn spec_checked_add(left: int, right: int) -> Result<i128, BackstopError> {
    if fits_i128(left + right) {
        Ok((left + right) as i128)
    } else {
        Err(BackstopError::OverflowError)
    }
}

/// The sum of two amounts.
pub fn checked_add(left: i128, right: i128) -> (r: Result<i128, BackstopError>)
    ensures
        r == spec_checked_add(left as int, right as int),
{
    match left.checked_add(right) {
        Some(sum) => Ok(sum),
        None => Err(BackstopError::OverflowError),
    }
}

/// The difference of two amounts, an overflow where it is negative.
pub open spec fn spec_checked_sub(left: int, right: int) -> Result<i128, BackstopError> {
    if 0 <= left - right <= i128::MAX {
        Ok((left - right) as i128)
    } else {
        Err(BackstopError::OverflowError)
    }
}

/// The difference of two amounts that must not be negative.
pub fn checked_sub(left: i128, right: i128) -> (r: Result<i128, BackstopError>)
    ensures
        r == spec_checked_sub(left as int, right as int),
{
    match left.checked_sub(right) {
        Some(difference) => if difference >= 0 {
            Ok(difference)
        } else {
            Err(BackstopError::OverflowError)
        },
        None => Err(BackstopError::OverflowError),
    }
}

/// `floor(value * numerator / denominator)`: a negative operand or a denominator
/// that is not positive is invalid, a result beyond an `i128` an overflow.
pub open spec fn spec_proportional_floor(value: int, numerator: int, denominator: int) -> Result<
    i128,
    BackstopError,
> {
    if value < 0 || numerator < 0 || denominator <= 0 {
        Err(BackstopError::InvalidEmissionValue)
    } else if fits_i128(value * numerator / denominator) {
        Ok((value * numerator / denominator) as i128)
    } else {
        Err(BackstopError::OverflowError)
    }
}

/// `floor(value * numerator / denominator)` for an emission.
pub fn proportional_floor(e: &Env, value: i128, numerator: i128, denominator: i128) -> (r: Result<
    i128,
    BackstopError,
>)
    ensures
        r == spec_proportional_floor(value as int, numerator as int, denominator as int),
{
    if value < 0 || numerator < 0 || denominator <= 0 {
        return Err(BackstopError::InvalidEmissionValue);
    }
    match mul_div_floor(e, value, numerator, denominator) {
        Some(quotient) => Ok(quotient),
        None => Err(BackstopError::OverflowError),
    }
}

/// A part of a whole of a value is no more than the value.
pub proof fn lemma_part_of_value(value: int, part: int, whole: int)
    requires
        value >= 0,
        0 <= part <= whole,
        whole > 0,
    ensures
        0 <= value * part / whole <= value,
        (value * part / whole) * whole <= value * part,
{
    assert(0 <= value * part <= value * whole) by (nonlinear_arith)
        requires
            value >= 0,
            0 <= part <= whole,
    ;
    lemma_quotient_bounds(value * part, whole);
    let q = value * part / whole;
    assert(q <= value) by (nonlinear_arith)
        requires
            q * whole <= value * part,
            value * part <= value * whole,
            whole > 0,
    ;
}

/// The backstop's part, the pools' part and what rounding leaves over.
pub open spec fn spec_split(total: int) -> (int, int, int) {
    let backstop = total * BACKSTOP_EMISSION_NUMERATOR / EMISSION_SPLIT_DENOMINATOR as int;
    let pool = total * POOL_EMISSION_NUMERATOR / EMISSION_SPLIT_DENOMINATOR as int;
    (backstop, pool, total - backstop - pool)
}

/// A split hands out exactly the total, and rounding leaves at most one unit over.
pub proof fn law_split_conserves_the_total(total: int)
    requires
        total >= 0,
    ensures
        ({
            let (backstop, pool, carry) = spec_split(total);
            &&& backstop + pool + carry == total
            &&& 0 <= backstop <= total
            &&& 0 <= pool <= total
            &&& 0 <= carry <= 1
        }),
{
    lemma_quotient_bounds(total * 7, 10);
    lemma_quotient_bounds(total * 3, 10);
}

/// Split an ongoing distribution with the carry of the one before: 70% to the
/// backstop, 30% to the pools, the rest carried on.
pub fn quote_ongoing_blnt_split(e: &Env, distribution: i128, prior_carry: i128) -> (r: Result<
    (i128, i128, i128),
    BackstopError,
>)
    ensures
        match r {
            Ok(split) => {
                &&& distribution >= 0 && prior_carry >= 0
                &&& distribution + prior_carry <= i128::MAX
                &&& (split.0 as int, split.1 as int, split.2 as int) == spec_split(
                    distribution + prior_carry,
                )
            },
            Err(error) => if distribution < 0 || prior_carry < 0 {
                error == BackstopError::InvalidEmissionValue
            } else {
                error == BackstopError::OverflowError && distribution + prior_carry > i128::MAX
            },
        },
{
    if distribution < 0 || prior_carry < 0 {
        return Err(BackstopError::InvalidEmissionValue);
    }
    let total: i128 = checked_add(distribution, prior_carry)?;
    proof {
        law_split_conserves_the_total(total as int);
    }
    let backstop: i128 = proportional_floor(
        e,
        total,
        BACKSTOP_EMISSION_NUMERATOR,
        EMISSION_SPLIT_DENOMINATOR,
    )?;
    let pool: i128 = proportional_floor(
        e,
        total,
        POOL_EMISSION_NUMERATOR,
        EMISSION_SPLIT_DENOMINATOR,
    )?;
    let allocated: i128 = checked_add(backstop, pool)?;
    let carry: i128 = checked_sub(total, allocated)?;
    Ok((backstop, pool, carry))
}

/// Allocation quote for one BLND-emission scope.
#[derive(Clone, Copy, Debug, PartialEq, Eq, Structural)]
pub struct BlntEmissionQuote {
    pub allocation: i128,
    pub eligible_blnt: i128,
}

/// The BLND behind the two LP tiers.
#[derive(Clone, Copy, Debug, PartialEq, Eq, Structural)]
pub struct BlntEmissionValues {
    pub blnt_usdc: i128,
    pub blnt_xlm: i128,
}

/// The BLND of both tiers together.
pub open spec fn spec_eligible_blnt(values: BlntEmissionValues) -> Result<i128, BackstopError> {
    if values.blnt_usdc < 0 || values.blnt_xlm < 0 {
        Err(BackstopError::InvalidEmissionValue)
    } else {
        spec_checked_add(values.blnt_usdc as int, values.blnt_xlm as int)
    }
}

/// The BLND of both tiers together.
pub fn eligible_blnt(values: &BlntEmissionValues) -> (r: Result<i128, BackstopError>)
    ensures
        r == spec_eligible_blnt(*values),
        r matches Ok(total) ==> total >= 0,
{
    if values.blnt_usdc < 0 || values.blnt_xlm < 0 {
        return Err(BackstopError::InvalidEmissionValue);
    }
    checked_add(values.blnt_usdc, values.blnt_xlm)
}

/// A member's part of a distribution by its share of the BLND, rounded down.
pub open spec fn spec_share(distribution: int, part: int, whole: int) -> int {
    if part == 0 {
        0
    } else {
        distribution * part / whole
    }
}

/// The part of a distribution that a pool earns; only members of the reward zone earn.
pub open spec fn spec_quote_pool_blnt(
    distribution: i128,
    values: BlntEmissionValues,
    total_reward_zone_blnt: i128,
    reward_zone_member: bool,
) -> Result<BlntEmissionQuote, BackstopError> {
    if distribution < 0 || total_reward_zone_blnt < 0 {
        Err(BackstopError::InvalidEmissionValue)
    } else {
        match spec_eligible_blnt(values) {
            Err(error) => Err(error),
            Ok(blnt) => if !reward_zone_member {
                Ok(BlntEmissionQuote { allocation: 0, eligible_blnt: blnt })
            } else if blnt > total_reward_zone_blnt {
                Err(BackstopError::InvalidEmissionValue)
            } else {
                Ok(
                    BlntEmissionQuote {
                        allocation: spec_share(
                            distribution as int,
                            blnt as int,
                            total_reward_zone_blnt as int,
                        ) as i128,
                        eligible_blnt: blnt,
                    },
                )
            },
        }
    }
}

/// Quote the part of a distribution that a pool earns.
pub fn quote_pool_blnt_emissions(
    e: &Env,
    distribution: i128,
    values: &BlntEmissionValues,
    total_reward_zone_blnt: i128,
    reward_zone_member: bool,
) -> (r: Result<BlntEmissionQuote, BackstopError>)
    ensures
        r == spec_quote_pool_blnt(
            distribution,
            *values,
            total_reward_zone_blnt,
            reward_zone_member,
        ),
        r matches Ok(quote) ==> 0 <= quote.allocation <= distribution,
{
    if distribution < 0 || total_reward_zone_blnt < 0 {
        return Err(BackstopError::InvalidEmissionValue);
    }
    let pool_blnt: i128 = eligible_blnt(values)?;
    if !reward_zone_member {
        return Ok(BlntEmissionQuote { allocation: 0, eligible_blnt: pool_blnt });
    }
    if pool_blnt > total_reward_zone_blnt {
        return Err(BackstopError::InvalidEmissionValue);
    }
    let allocation: i128 = if pool_blnt == 0 {
        0
    } else {
        proof {
            lemma_part_of_value(
                distribution as int,
                pool_blnt as int,
                total_reward_zone_blnt as int,
            );
        }
        proportional_floor(e, distribution, pool_blnt, total_reward_zone_blnt)?
    };
    Ok(BlntEmissionQuote { allocation, eligible_blnt: pool_blnt })
}

/// The part of a pool's distribution that a user earns.
pub open spec fn spec_quote_user_blnt(
    pool_distribution: i128,
    values: BlntEmissionValues,
    pool_eligible_blnt: i128,
) -> Result<BlntEmissionQuote, BackstopError> {
    if pool_distribution < 0 || pool_eligible_blnt < 0 {
        Err(BackstopError::InvalidEmissionValue)
    } else {
        match spec_eligible_blnt(values) {
            Err(error) => Err(error),
            Ok(blnt) => if blnt > pool_eligible_blnt {
                Err(BackstopError::InvalidEmissionValue)
            } else {
                Ok(
                    BlntEmissionQuote {
                        allocation: spec_share(
                            pool_distribution as int,
                            blnt as int,
                            pool_eligible_blnt as int,
                        ) as i128,
                        eligible_blnt: blnt,
                    },
                )
            },
        }
    }
}

/// Quote the part of a pool's distribution that a user earns.
pub fn quote_user_blnt_emissions(
    e: &Env,
    pool_distribution: i128,
    values: &BlntEmissionValues,
    pool_eligible_blnt: i128,
) -> (r: Result<BlntEmissionQuote, BackstopError>)
    ensures
        r == spec_quote_user_blnt(pool_distribution, *values, pool_eligible_blnt),
        r matches Ok(quote) ==> 0 <= quote.allocation <= pool_distribution,
{
    if pool_distribution < 0 || pool_eligible_blnt < 0 {
        return Err(BackstopError::InvalidEmissionValue);
    }
    let user_blnt: i128 = eligible_blnt(values)?;
    if user_blnt > pool_eligible_blnt {
        return Err(BackstopError::InvalidEmissionValue);
    }
    let allocation: i128 = if user_blnt == 0 {
        0
    } else {
        proof {
            lemma_part_of_value(
                pool_distribution as int,
                user_blnt as int,
                pool_eligible_blnt as int,
            );
        }
        proportional_floor(e, pool_distribution, user_blnt, pool_eligible_blnt)?
    };
    Ok(BlntEmissionQuote { allocation, eligible_blnt: user_blnt })
}

/// The tokens behind a tier's active shares; a balance that is not well formed
/// earns nothing.
pub open spec fn spec_active_assets(balance: PoolBalance) -> Result<i128, BackstopError> {
    if balance.well_formed() {
        Ok(balance.tokens_for(balance.shares - balance.q4w) as i128)
    } else {
        Err(BackstopError::InvalidEmissionValue)
    }
}

/// The tokens behind a tier's active shares.
pub fn pool_active_emission_assets(balance: &PoolBalance) -> (r: Result<i128, BackstopError>)
    requires
        balance.well_formed() ==> balance.tokens_for_fits(balance.shares - balance.q4w),
    ensures
        r == spec_active_assets(*balance),
{
    if balance.tokens < 0 || balance.shares < 0 || balance.q4w < 0 || balance.q4w
        > balance.shares {
        return Err(BackstopError::InvalidEmissionValue);
    }
    let active_shares: i128 = checked_sub(balance.shares, balance.q4w)?;
    Ok(balance.convert_to_tokens(active_shares))
}

/// Check the supply and the BLND reserve that a canonical Comet pool reports.
pub fn comet_composition(is_canonical: bool, total_supply: i128, blnt_reserve: i128) -> (r: Result<
    (i128, i128),
    BackstopError,
>)
    ensures
        r == if !is_canonical || total_supply <= 0 || blnt_reserve < 0 {
            Err(BackstopError::InvalidEmissionValue)
        } else {
            Ok((total_supply, blnt_reserve))
        },
{
    if !is_canonical || total_supply <= 0 || blnt_reserve < 0 {
        return Err(BackstopError::InvalidEmissionValue);
    }
    Ok((total_supply, blnt_reserve))
}

/// The part of the BLND reserve that LP tokens stand for, rounded down.
pub open spec fn spec_underlying_blnt(lp_amount: int, total_supply: int, blnt_reserve: int) -> Result<
    i128,
    BackstopError,
> {
    if lp_amount < 0 || total_supply <= 0 || blnt_reserve < 0 || lp_amount > total_supply {
        Err(BackstopError::InvalidEmissionValue)
    } else {
        Ok((lp_amount * blnt_reserve / total_supply) as i128)
    }
}

/// The part of the BLND reserve that LP tokens stand for.
pub fn underlying_blnt_from_composition(
    e: &Env,
    lp_amount: i128,
    total_supply: i128,
    blnt_reserve: i128,
) -> (r: Result<i128, BackstopError>)
    ensures
        r == spec_underlying_blnt(lp_amount as int, total_supply as int, blnt_reserve as int),
        r matches Ok(blnt) ==> 0 <= blnt <= blnt_reserve,
{
    if lp_amount < 0 || total_supply <= 0 || blnt_reserve < 0 || lp_amount > total_supply {
        return Err(BackstopError::InvalidEmissionValue);
    }
    proof {
        lemma_part_of_value(blnt_reserve as int, lp_amount as int, total_supply as int);
        assert(lp_amount * blnt_reserve == blnt_reserve * lp_amount) by (nonlinear_arith);
    }
    proportional_floor(e, lp_amount, blnt_reserve, total_supply)
}

/// One LP tier of a pool: its balance with the supply and the BLND reserve that the
/// tier's Comet pool reports.
#[derive(Clone, Copy, Debug, PartialEq, Eq, Structural)]
pub struct LpPosition {
    pub balance: PoolBalance,
    pub total_supply: i128,
    pub blnt_reserve: i128,
}

/// The BLND behind the active shares of one LP tier; a pool without the tier has none.
pub open spec fn spec_spot_underlying(position: Option<LpPosition>) -> Result<i128, BackstopError> {
    match position {
        None => Ok(0),
        Some(p) => match spec_active_assets(p.balance) {
            Err(error) => Err(error),
            Ok(assets) => if assets < 0 || p.total_supply <= 0 || p.blnt_reserve < 0 {
                Err(BackstopError::InvalidEmissionValue)
            } else {
                spec_underlying_blnt(assets as int, p.total_supply as int, p.blnt_reserve as int)
            },
        },
    }
}

/// The BLND behind the active shares of one LP tier.
pub fn spot_underlying_blnt_for_token(e: &Env, position: &Option<LpPosition>) -> (r: Result<
    i128,
    BackstopError,
>)
    requires
        position matches Some(p) ==> (p.balance.well_formed() ==> p.balance.tokens_for_fits(
            p.balance.shares - p.balance.q4w,
        )),
    ensures
        r == spec_spot_underlying(*position),
        r matches Ok(blnt) ==> blnt >= 0,
{
    match position {
        None => Ok(0),
        Some(p) => {
            let assets: i128 = pool_active_emission_assets(&p.balance)?;
            if assets < 0 {
                return Err(BackstopError::InvalidEmissionValue);
            }
            let composition = comet_composition(true, p.total_supply, p.blnt_reserve)?;
            underlying_blnt_from_composition(e, assets, composition.0, composition.1)
        },
    }
}

/// The BLND behind the active shares of both LP tiers, or the first error.
pub open spec fn spec_spot_weight(
    blnt_usdc: Option<LpPosition>,
    blnt_xlm: Option<LpPosition>,
) -> Result<i128, BackstopError> {
    match (spec_spot_underlying(blnt_usdc), spec_spot_underlying(blnt_xlm)) {
        (Err(error), _) => Err(error),
        (_, Err(error)) => Err(error),
        (Ok(first), Ok(second)) => spec_checked_add(first as int, second as int),
    }
}

/// The weight by which a pool earns emissions: the BLND behind its active shares.
pub fn pool_spot_blnt_emission_weight(
    e: &Env,
    blnt_usdc: &Option<LpPosition>,
    blnt_xlm: &Option<LpPosition>,
) -> (r: Result<i128, BackstopError>)
    requires
        blnt_usdc matches Some(p) ==> (p.balance.well_formed() ==> p.balance.tokens_for_fits(
            p.balance.shares - p.balance.q4w,
        )),
        blnt_xlm matches Some(p) ==> (p.balance.well_formed() ==> p.balance.tokens_for_fits(
            p.balance.shares - p.balance.q4w,
        )),
    ensures
        r == spec_spot_weight(*blnt_usdc, *blnt_xlm),
        r matches Ok(weight) ==> weight >= 0,
{
    let first: i128 = spot_underlying_blnt_for_token(e, blnt_usdc)?;
    let second: i128 = spot_underlying_blnt_for_token(e, blnt_xlm)?;
    checked_add(first, second)
}

} // verus!
