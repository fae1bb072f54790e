//! Driver supervision policy.

pub mod backoff;
