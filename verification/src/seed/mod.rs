//! The demo portfolio blueprint a fresh station is seeded with.

pub mod portfolio;
