//! What the backstop reads from the contracts around it.

pub mod backstop_valuation;
pub mod emitter;
pub mod pool_factory;
