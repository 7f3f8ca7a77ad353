//! Token-weighted governance: users stake a fungible token to gain voting
//! power, create time-bounded proposals, cast single-shot votes, and resolve
//! proposals against a quorum rule.
//!
//! The durable host store, the token transfer gateway and caller-identity
//! verification are external collaborators: the host hands every operation
//! pre-verified principals and the current ledger time, and performs token
//! transfers before committing the matching ledger mutation.

pub mod balances;
pub mod contract;
pub mod laws;
pub mod proposal;
pub mod storage_types;
pub mod store;
pub mod votes;
