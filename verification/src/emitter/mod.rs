//! The emitter that pays the backstop and converts the legacy token.

pub mod contract;
pub mod conversion;
pub mod emitter;
pub mod emitter_laws;
pub mod errors;
