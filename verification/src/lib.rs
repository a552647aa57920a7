//! Verified accounting core of a three-tier lending backstop and its emitter.

pub mod access;
pub mod backstop;
pub mod backstop_valuation;
pub mod collections;
pub mod config_laws;
pub mod constants;
pub mod contract;
pub mod dependencies;
pub mod emissions;
pub mod emitter;
pub mod errors;
pub mod math;
pub mod migration;
pub mod migration_laws;
pub mod mocks;
pub mod oracle;
pub mod oracle_laws;
pub mod pool_factory;
pub mod refusal_laws;
pub mod results;
pub mod rounding_laws;
pub mod storage;

use vstd::prelude::*;

verus! {

/// An account or a contract, by the identifier that its host assigns it.
pub type Address = u64;

} // verus!
