//! Tier accounting: pool balances, user balances, valuation and loss handling.

pub mod bad_debt;
pub mod buyback;
pub mod buyback_laws;
pub mod clawback;
pub mod deposit;
pub mod fund_management;
pub mod interest;
pub mod loss_laws;
pub mod pool;
pub mod pool_laws;
pub mod position_laws;
pub mod quote_laws;
pub mod share_laws;
pub mod tier;
pub mod user;
pub mod valuation;
pub mod valuation_laws;
pub mod withdrawal;
