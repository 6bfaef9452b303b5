//! A leave ledger: employees with their leave balances, leave policies, and the
//! lifecycle of leave requests, kept in stable memory.
//!
//! `system` holds the service and its operations, `rules` what each operation
//! means, `laws` what follows from the rules, `store` and `codec` the durable
//! records, and `stable` the memory with its slots underneath.

pub mod codec;
pub mod fault;
pub mod laws;
pub mod listing;
pub mod model;
pub mod report;
pub mod rules;
pub mod stable;
pub mod store;
pub mod system;
pub mod text;
