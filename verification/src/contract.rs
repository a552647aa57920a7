//! Checks at the contract's entry points.

use vstd::prelude::*;

use crate::backstop::pool::{
    asset_list, canonical_comet, decimals_match, validate_backstop_assets, AssetDecimals,
    BackstopAssets, CometTokens,
};
use crate::constants::{MAX_INITIAL_DROP, MAX_MIGRATION_DROP_LIST};
use crate::errors::BackstopError;
use crate::Address;

verus! {

/// The objection to an incoming amount: it must not be negative.
pub open spec fn spec_require_nonnegative(amount: i128) -> Result<(), BackstopError> {
    if amount < 0 {
        Err(BackstopError::NegativeAmountError)
    } else {
        Ok(())
    }
}

/// Require that an incoming amount is not negative.
pub fn require_nonnegative(amount: i128) -> (r: Result<(), BackstopError>)
    ensures
        r == spec_require_nonnegative(amount),
{
    if amount < 0 {
        return Err(BackstopError::NegativeAmountError);
    }
    Ok(())
}

/// The sum of a drop list, or the first objection to it: a negative amount, or a
/// sum beyond an `i128`.
pub open spec fn spec_drop_list_total(list: Seq<(Address, i128)>) -> Result<i128, BackstopError>
    decreases list.len(),
{
    if list.len() == 0 {
        Ok(0)
    } else {
        match spec_drop_list_total(list.drop_last()) {
            Err(error) => Err(error),
            Ok(total) => if list.last().1 < 0 {
                Err(BackstopError::NegativeAmountError)
            } else if total + list.last().1 > i128::MAX {
                Err(BackstopError::OverflowError)
            } else {
                Ok((total + list.last().1) as i128)
            },
        }
    }
}

proof fn lemma_drop_list_error(list: Seq<(Address, i128)>, i: int)
    requires
        0 <= i <= list.len(),
        spec_drop_list_total(list.take(i)) is Err,
    ensures
        spec_drop_list_total(list) == spec_drop_list_total(list.take(i)),
    decreases list.len() - i,
{
    if i == list.len() {
        assert(list.take(i) =~= list);
    } else {
        assert(list.take(i + 1).drop_last() =~= list.take(i));
        lemma_drop_list_error(list, i + 1);
    }
}

/// Whether a drop list is beyond what a migration candidate may allocate, or the
/// objection to the list: only the emitter's current recipient may go beyond, and
/// nobody beyond the cap of the initial recipient.
pub open spec fn spec_check_drop_list(
    list: Seq<(Address, i128)>,
    is_current_backstop: bool,
) -> Result<bool, BackstopError> {
    match spec_drop_list_total(list) {
        Err(error) => Err(error),
        Ok(total) => if total > MAX_INITIAL_DROP || (total > MAX_MIGRATION_DROP_LIST
            && !is_current_backstop) {
            Err(BackstopError::BadRequest)
        } else {
            Ok(total > MAX_MIGRATION_DROP_LIST)
        },
    }
}

/// Check a drop list. `is_current_backstop` says whether the emitter pays this backstop.
pub fn check_drop_list(list: &Vec<(Address, i128)>, is_current_backstop: bool) -> (r: Result<
    bool,
    BackstopError,
>)
    ensures
        r == spec_check_drop_list(list@, is_current_backstop),
{
    let mut drop_total: i128 = 0;
    let mut index: usize = 0;
    while index < list.len()
        invariant
            index <= list@.len(),
            drop_total >= 0,
            spec_drop_list_total(list@.take(index as int)) == Ok::<i128, BackstopError>(
                drop_total,
            ),
        decreases list@.len() - index,
    {
        let amount: i128 = list[index].1;
        proof {
            let next = list@.take(index + 1);
            assert(next.drop_last() =~= list@.take(index as int));
            assert(next.last() == list@[index as int]);
            if spec_drop_list_total(next) is Err {
                lemma_drop_list_error(list@, index + 1);
            }
        }
        require_nonnegative(amount)?;
        drop_total = match drop_total.checked_add(amount) {
            Some(total) => total,
            None => return Err(BackstopError::OverflowError),
        };
        index = index + 1;
    }
    assert(list@.take(index as int) =~= list@);
    if drop_total > MAX_INITIAL_DROP {
        return Err(BackstopError::BadRequest);
    }
    let extended_initial_drop: bool = drop_total > MAX_MIGRATION_DROP_LIST;
    if extended_initial_drop && !is_current_backstop {
        return Err(BackstopError::BadRequest);
    }
    Ok(extended_initial_drop)
}

/// A backstop module for isolated lending pools: what it is set up with.
#[derive(Clone, Copy, Debug, PartialEq, Eq, Structural)]
pub struct BackstopContract {
    pub assets: BackstopAssets,
    pub emitter: Address,
    pub pool_factory: Address,
    /// Whether the drop list is beyond what a migration candidate may allocate.
    pub extended_initial_drop: bool,
}

impl BackstopContract {
    /// Set up the backstop: its token contracts and its drop list have to pass their checks.
    pub fn construct(
        assets: &BackstopAssets,
        decimals: &AssetDecimals,
        blnt_usdc: &CometTokens,
        blnt_xlm: &CometTokens,
        emitter: Address,
        pool_factory: Address,
        drop_list: &Vec<(Address, i128)>,
        is_current_backstop: bool,
    ) -> (r: Result<BackstopContract, BackstopError>)
        ensures
            r == if !asset_list(*assets).no_duplicates() {
                Err(BackstopError::AssetConfigurationCollision)
            } else if !decimals_match(*decimals) || !canonical_comet(
                *blnt_usdc,
                assets.blnd,
                assets.usdc,
            ) || !canonical_comet(*blnt_xlm, assets.blnd, assets.xlm) {
                Err(BackstopError::InvalidBackstopValuation)
            } else {
                match spec_check_drop_list(drop_list@, is_current_backstop) {
                    Err(error) => Err(error),
                    Ok(extended) => Ok(
                        BackstopContract {
                            assets: *assets,
                            emitter,
                            pool_factory,
                            extended_initial_drop: extended,
                        },
                    ),
                }
            },
    {
        validate_backstop_assets(assets, decimals, blnt_usdc, blnt_xlm)?;
        let extended_initial_drop: bool = check_drop_list(drop_list, is_current_backstop)?;
        Ok(BackstopContract { assets: *assets, emitter, pool_factory, extended_initial_drop })
    }
}

} // verus!
