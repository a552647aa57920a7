//! Stand-ins for the contracts around the backstop, for use in tests.

pub mod backstop_valuation;
pub mod emitter;
pub mod pool;
