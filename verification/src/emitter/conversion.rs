//! One-to-one conversion of the legacy token.

use vstd::prelude::*;

use super::errors::EmitterError;
use crate::math::fits_i128;
use crate::Address;

verus! {

/// What decides whether a conversion may begin.
#[derive(Clone, Copy, Debug, PartialEq, Eq, Structural)]
pub struct SwapTerms {
    pub is_init: bool,
    /// The end of the conversion window.
    pub deadline: u64,
    /// Whether a conversion is under way.
    pub locked: bool,
    pub legacy_blnd: Address,
    pub blnt: Address,
}

/// The first objection to a conversion: no emission token yet, no amount, a closed
/// window, a conversion under way, or a token that would convert into itself.
pub open spec fn spec_swap_error(terms: SwapTerms, amount: i128, now: u64) -> Option<EmitterError> {
    if !terms.is_init {
        Some(EmitterError::NotInitialized)
    } else if amount <= 0 {
        Some(EmitterError::InvalidSwapAmount)
    } else if now >= terms.deadline {
        Some(EmitterError::SwapWindowClosed)
    } else if terms.locked {
        Some(EmitterError::ReentrantSwap)
    } else if terms.legacy_blnd == terms.blnt {
        Some(EmitterError::InvalidSwapToken)
    } else {
        None
    }
}

/// Begin a conversion: check its terms and lock out another one.
pub fn begin_swap(terms: &mut SwapTerms, amount: i128, now: u64) -> (r: Result<(), EmitterError>)
    ensures
        match spec_swap_error(*old(terms), amount, now) {
            Some(error) => {
                &&& r == Err::<(), EmitterError>(error)
                &&& *final(terms) == *old(terms)
            },
            None => {
                &&& r == Ok::<(), EmitterError>(())
                &&& *final(terms) == (SwapTerms { locked: true, ..*old(terms) })
            },
        },
{
    if !terms.is_init {
        return Err(EmitterError::NotInitialized);
    }
    if amount <= 0 {
        return Err(EmitterError::InvalidSwapAmount);
    }
    if now >= terms.deadline {
        return Err(EmitterError::SwapWindowClosed);
    }
    if terms.locked {
        return Err(EmitterError::ReentrantSwap);
    }
    if terms.legacy_blnd == terms.blnt {
        return Err(EmitterError::InvalidSwapToken);
    }
    terms.locked = true;
    Ok(())
}

/// The token balances around a conversion's three token calls: the emitter's of the
/// legacy token before, after the transfer and after the burn, and the
/// recipient's of the new token before and after the mint.
#[derive(Clone, Copy, Debug, PartialEq, Eq, Structural)]
pub struct SwapBalances {
    pub legacy_before: i128,
    pub legacy_received: i128,
    pub legacy_burned: i128,
    pub blnt_before: i128,
    pub blnt_after: i128,
}

/// Whether exactly the amount came in, was burned, and was minted.
pub open spec fn swap_settled(balances: SwapBalances, amount: i128) -> bool {
    &&& balances.legacy_received - balances.legacy_before == amount
    &&& balances.legacy_burned == balances.legacy_before
    &&& balances.blnt_after - balances.blnt_before == amount
}

/// Close a conversion: check the token balances, count the amount, and unlock.
/// Returns all that has been converted.
pub fn execute_swap_blnd_for_blnt(
    terms: &mut SwapTerms,
    total_swapped: &mut i128,
    amount: i128,
    balances: &SwapBalances,
) -> (r: Result<i128, EmitterError>)
    ensures
        if !swap_settled(*balances, amount) {
            &&& r == Err::<i128, EmitterError>(EmitterError::SwapBalanceError)
            &&& *final(terms) == *old(terms)
            &&& *final(total_swapped) == *old(total_swapped)
        } else if !fits_i128(*old(total_swapped) + amount) {
            &&& r == Err::<i128, EmitterError>(EmitterError::OverflowError)
            &&& *final(terms) == *old(terms)
            &&& *final(total_swapped) == *old(total_swapped)
        } else {
            &&& r == Ok::<i128, EmitterError>((*old(total_swapped) + amount) as i128)
            &&& *final(total_swapped) == *old(total_swapped) + amount
            &&& *final(terms) == (SwapTerms { locked: false, ..*old(terms) })
        },
{
    match balances.legacy_received.checked_sub(balances.legacy_before) {
        None => return Err(EmitterError::SwapBalanceError),
        Some(received) => {
            if received != amount {
                return Err(EmitterError::SwapBalanceError);
            }
        },
    }
    if balances.legacy_burned != balances.legacy_before {
        return Err(EmitterError::SwapBalanceError);
    }
    match balances.blnt_after.checked_sub(balances.blnt_before) {
        None => return Err(EmitterError::SwapBalanceError),
        Some(minted) => {
            if minted != amount {
                return Err(EmitterError::SwapBalanceError);
            }
        },
    }
    let total: i128 = match total_swapped.checked_add(amount) {
        Some(total) => total,
        None => return Err(EmitterError::OverflowError),
    };
    *total_swapped = total;
    terms.locked = false;
    Ok(total)
}

/// Converting mints exactly as much of the new token as it burns of the legacy token.
pub proof fn law_conversion_is_one_to_one(balances: SwapBalances, amount: i128)
    requires
        swap_settled(balances, amount),
    ensures
        balances.blnt_after - balances.blnt_before == balances.legacy_received
            - balances.legacy_burned,
{
}

} // verus!
