//! A valuation contract that prices everything one to one.

use vstd::prelude::*;

use crate::dependencies::backstop_valuation::{AssetValuation, BackstopValuationBinding};
use crate::Address;

verus! {

/// The only error of the stand-in.
#[derive(Clone, Copy, Debug, PartialEq, Eq, Structural)]
pub enum MockBackstopValuationError {
    QuoteFailure,
}

impl MockBackstopValuationError {
    /// The number under which the contract reports the error.
    pub fn code(self) -> (r: u32)
        ensures
            r == 1,
    {
        match self {
            MockBackstopValuationError::QuoteFailure => 1,
        }
    }
}

/// A valuation contract that prices everything one to one, or fails on demand.
#[derive(Clone, Copy, Debug, PartialEq, Eq, Structural)]
pub struct MockBackstopValuation {
    pub binding: BackstopValuationBinding,
    pub quote_failure: bool,
}

impl MockBackstopValuation {
    /// The assets that the contract is bound to.
    pub fn binding(&self) -> (r: BackstopValuationBinding)
        ensures
            r == self.binding,
    {
        self.binding
    }

    /// Price an amount of any token one to one.
    pub fn quote(&self, _token: Address, amount: i128) -> (r: Result<
        AssetValuation,
        MockBackstopValuationError,
    >)
        ensures
            r == if self.quote_failure {
                Err(MockBackstopValuationError::QuoteFailure)
            } else {
                Ok(
                    AssetValuation {
                        underlying_blnd: amount,
                        usdc_value: amount,
                        valid_until: u64::MAX,
                    },
                )
            },
    {
        if self.quote_failure {
            return Err(MockBackstopValuationError::QuoteFailure);
        }
        Ok(AssetValuation { underlying_blnd: amount, usdc_value: amount, valid_until: u64::MAX })
    }

    /// Inject a failure for the paths that have to fail closed.
    pub fn set_quote_failure(&mut self, fail: bool)
        ensures
            *final(self) == (MockBackstopValuation { quote_failure: fail, ..*old(self) }),
    {
        self.quote_failure = fail;
    }
}

} // verus!
