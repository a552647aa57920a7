//! What the emitter reports.

use vstd::prelude::*;

use crate::Address;

verus! {

/// A replacement of the emitter's backstop that waits for its unlock.
#[derive(Clone, Copy, Debug, PartialEq, Eq, Structural)]
pub struct Swap {
    pub new_backstop: Address,
    pub new_backstop_token: Address,
    pub unlock_time: u64,
}

} // verus!
