//! Board scheduling: what fires a board, which boards the scheduler drives and
//! how, the per-board loop table keyed by a board's stable identity, and the
//! latest per-node outputs of each board's runs.

pub mod loops;
pub mod outputs;
pub mod record;
pub mod trigger;
