//! Permission to hold active backstop shares in a pool.

use vstd::prelude::*;

use crate::errors::BackstopError;

verus! {

/// The permission bit that allows deposits into the backstop.
pub const BACKSTOP_DEPOSIT_ALLOWED: u32 = 4;

/// Whether a set of permissions allows deposits into the backstop.
pub open spec fn allows_deposit(permissions: u32) -> bool {
    permissions & BACKSTOP_DEPOSIT_ALLOWED != 0
}

/// Require permission to create or restore active backstop shares. `permissions`
/// is what the pool's controller grants the user; pools without a controller are open.
pub fn require_deposit_permission(is_pool: bool, permissions: Option<u32>) -> (r: Result<
    (),
    BackstopError,
>)
    ensures
        r == if !is_pool {
            Err(BackstopError::NotPool)
        } else if permissions is Some && !allows_deposit(permissions->Some_0) {
            Err(BackstopError::UnauthorizedError)
        } else {
            Ok(())
        },
{
    if !is_pool {
        return Err(BackstopError::NotPool);
    }
    if let Some(permissions) = permissions {
        if permissions & BACKSTOP_DEPOSIT_ALLOWED == 0 {
            return Err(BackstopError::UnauthorizedError);
        }
    }
    Ok(())
}

/// Require an affirmative controller response proving that backstop deposit
/// permission is absent. Open pools cannot authorize forced exits.
pub fn require_deposit_permission_absent(is_pool: bool, permissions: Option<u32>) -> (r: Result<
    (),
    BackstopError,
>)
    ensures
        r == if !is_pool {
            Err(BackstopError::NotPool)
        } else if permissions is Some && !allows_deposit(permissions->Some_0) {
            Ok(())
        } else {
            Err(BackstopError::UnauthorizedError)
        },
{
    if !is_pool {
        return Err(BackstopError::NotPool);
    }
    match permissions {
        None => Err(BackstopError::UnauthorizedError),
        Some(permissions) => if permissions & BACKSTOP_DEPOSIT_ALLOWED != 0 {
            Err(BackstopError::UnauthorizedError)
        } else {
            Ok(())
        },
    }
}

/// Deposits are allowed exactly where the third lowest bit of the permissions is set.
pub proof fn law_deposit_bit_decides(permissions: u32)
    ensures
        allows_deposit(permissions) <==> (permissions / 4) % 2 == 1,
{
    assert(permissions & 4u32 != 0 <==> (permissions / 4) % 2 == 1) by (bit_vector);
}

} // verus!
