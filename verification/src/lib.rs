//! A batch transaction engine: it applies an ordered sequence of financial
//! transaction records (deposits, withdrawals, disputes, resolves and
//! chargebacks) to per-client accounts and yields one final snapshot per
//! client, collecting per-record errors without stopping the run.

pub mod amount;
pub mod laws;
pub mod model;
pub mod service;
