//! A store in memory: applies effects and answers the reads of planners.

pub mod engine;
pub mod entries;
pub mod named;
pub mod session;
