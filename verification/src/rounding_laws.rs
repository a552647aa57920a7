//! How parts of amounts are rounded.

use vstd::prelude::*;

use crate::backstop::bad_debt;
use crate::backstop::pool::spec_mul_div_floor;
use crate::backstop_valuation::spec_scale;
use crate::emissions::policy::{
    lemma_part_of_value, spec_checked_add, spec_checked_sub, spec_proportional_floor,
    spec_underlying_blnt,
};
use crate::emissions::tier_accounting::spec_balance_sub;
use crate::math::{
    ceil_div, fits_i128, floor_div, is_ceil_of, is_floor_of, lemma_ceil, lemma_floor,
};

verus! {

/// A part of an amount is the greatest integer that is not above it. It is refused where an
/// operand is negative, the whole is not positive, or the result has no room.
pub proof fn law_parts_are_rounded_down(value: int, numerator: int, denominator: int)
    requires
        denominator > 0,
    ensures
        ({
            let given = value >= 0 && numerator >= 0;
            let room = fits_i128(value * numerator / denominator);
            &&& spec_proportional_floor(value, numerator, denominator) is Ok <==> given && room
            &&& bad_debt::spec_proportional_floor(value, numerator, denominator) is Ok <==> given
                && room
            &&& spec_mul_div_floor(value, numerator, denominator) is Ok <==> given && room
            &&& spec_scale(value, numerator, denominator) is Ok <==> room
            &&& spec_proportional_floor(value, numerator, denominator) matches Ok(part)
                ==> is_floor_of(part as int, value * numerator, denominator)
            &&& bad_debt::spec_proportional_floor(value, numerator, denominator) matches Ok(part)
                ==> is_floor_of(part as int, value * numerator, denominator)
            &&& spec_mul_div_floor(value, numerator, denominator) matches Ok(part) ==> is_floor_of(
                part as int,
                value * numerator,
                denominator,
            )
            &&& spec_scale(value, numerator, denominator) matches Ok(part) ==> is_floor_of(
                part as int,
                value * numerator,
                denominator,
            )
        }),
{
    lemma_floor(value * numerator, denominator);
}

/// A part of an amount that has to be reached is the least integer that is not below it.
pub proof fn law_targets_are_rounded_up(value: int, numerator: int, denominator: int)
    requires
        denominator > 0,
    ensures
        bad_debt::spec_proportional_ceil(value, numerator, denominator) matches Ok(part) ==> value
            >= 0 && numerator >= 0 && is_ceil_of(part as int, value * numerator, denominator),
        value >= 0 && numerator >= 0 && value * numerator <= i128::MAX
            ==> bad_debt::spec_proportional_ceil(value, numerator, denominator) is Ok,
{
    lemma_ceil(value * numerator, denominator);
    if value >= 0 && numerator >= 0 {
        let p = value * numerator;
        let q = ceil_div(p, denominator);
        assert(p >= 0) by (nonlinear_arith)
            requires
                value >= 0,
                numerator >= 0,
                p == value * numerator,
        ;
        assert(0 <= q <= p) by (nonlinear_arith)
            requires
                q * denominator - denominator < p <= q * denominator,
                denominator > 0,
                p >= 0,
        ;
    }
}

/// The BLND behind some LP tokens is their part, rounded down, of the reserve. No more LP
/// tokens are asked about than exist.
pub proof fn law_the_blnd_behind_lp_tokens_is_their_part(
    lp_amount: i128,
    total_supply: i128,
    blnt_reserve: i128,
)
    ensures
        ({
            let r = spec_underlying_blnt(
                lp_amount as int,
                total_supply as int,
                blnt_reserve as int,
            );
            &&& r is Ok <==> 0 <= lp_amount <= total_supply && total_supply > 0 && blnt_reserve >= 0
            &&& r matches Ok(blnt) ==> is_floor_of(
                blnt as int,
                lp_amount * blnt_reserve,
                total_supply as int,
            )
        }),
{
    if 0 <= lp_amount <= total_supply && total_supply > 0 && blnt_reserve >= 0 {
        lemma_floor(lp_amount * blnt_reserve, total_supply as int);
        assert(lp_amount * blnt_reserve == blnt_reserve * lp_amount) by (nonlinear_arith);
        lemma_part_of_value(blnt_reserve as int, lp_amount as int, total_supply as int);
    }
}

/// Sums and differences are exact where they have room. A difference of emissions, or of a
/// balance, is never negative.
pub proof fn law_sums_are_exact_or_refused(left: i128, right: i128)
    ensures
        spec_checked_add(left as int, right as int) is Ok <==> i128::MIN <= left + right
            <= i128::MAX,
        spec_checked_add(left as int, right as int) matches Ok(sum) ==> sum == left + right,
        spec_checked_sub(left as int, right as int) is Ok <==> 0 <= left - right <= i128::MAX,
        spec_checked_sub(left as int, right as int) matches Ok(rest) ==> rest + right == left,
        spec_balance_sub(left as int, right as int) is Ok <==> 0 <= left - right <= i128::MAX,
        spec_balance_sub(left as int, right as int) matches Ok(rest) ==> rest + right == left,
{
}

/// Rounded quotients are the nearest integers below and above, whatever the sign of the
/// dividend.
pub proof fn law_quotients_are_the_nearest_integers(n: int, d: int)
    requires
        d > 0,
    ensures
        is_floor_of(floor_div(n, d), n, d),
        is_ceil_of(ceil_div(n, d), n, d),
{
    lemma_floor(n, d);
    lemma_ceil(n, d);
}

} // verus!
