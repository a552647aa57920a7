//! Errors of the emitter contract.

use vstd::prelude::*;

verus! {

/// Errors of the emitter contract.
#[derive(Clone, Copy, Debug, PartialEq, Eq, Structural)]
pub enum EmitterError {
    AlreadyInitializedError,
    OverflowError,
    BadDrop,
    NotInitialized,
    InvalidEmissionToken,
    InvalidSwapAmount,
    SwapWindowClosed,
    ReentrantSwap,
    InvalidSwapToken,
    SwapBalanceError,
}

impl EmitterError {
    /// The number under which the contract reports the error, where one is laid down.
    pub open spec fn spec_code(self) -> Option<u32> {
        match self {
            EmitterError::AlreadyInitializedError => Some(3),
            EmitterError::BadDrop => Some(1101),
            _ => None,
        }
    }

    /// The number under which the contract reports the error, where one is laid down.
    pub fn code(self) -> (r: Option<u32>)
        ensures
            r == self.spec_code(),
    {
        match self {
            EmitterError::AlreadyInitializedError => Some(3),
            EmitterError::BadDrop => Some(1101),
            _ => None,
        }
    }
}

} // verus!
