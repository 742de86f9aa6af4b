//! A standard interface for tokenized vault contracts.
//!
//! A vault accepts deposits of a single base token and mints vault tokens
//! (shares) that represent proportional claims on the pooled holdings. This
//! crate defines the message protocol every conforming vault must accept,
//! a reference vault that implements the required accounting (with proofs of
//! the rounding and consistency laws the standard demands), a fixed-point
//! decimal type for tolerance checks in test suites, and a test-robot
//! abstraction that drives a vault through deposit/redeem/query cycles.

pub mod decimal;
pub mod error;
pub mod math;
pub mod msg;
pub mod robot;
pub mod vault;
