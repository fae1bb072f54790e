//! Verified core of the rubix supervisory server: profile selection, board
//! triggers and scheduling decisions, the latest-outputs cache, restart backoff,
//! RBAC permissions, keyexpr addressing and the change-ledger undo logic.

pub mod profile;
pub mod scheduler;
pub mod seed;
pub mod store;
pub mod supervisor;
pub mod text;
