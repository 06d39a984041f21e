//! Reward accounting for a staking pool: a fixed pool of reward tokens is
//! released along a piecewise-linear schedule and shared among participants in
//! proportion to the amount each has bonded, weighted by time.
//!
//! Every entry point brings the global reward index up to date, settles the
//! participant concerned against it, and only then applies its own change.
//! State is passed in explicitly; storage and message transport are left to
//! the caller.

pub mod contract;
pub mod error;
pub mod laws;
pub mod math;
pub mod msg;
pub mod query;
pub mod schedule;
pub mod state;
