//! Dictionary search for the HMAC secret of a signed token.
//!
//! The crate splits a three-segment token, decides from its algorithm
//! identifier whether there is anything to search for, turns the bytes of a
//! wordlist into candidate keys, checks candidates against the token's
//! signature, and drives the search state machine that accounts for progress
//! and settles on exactly one outcome.

pub mod algorithm;
pub mod engine;
pub mod laws;
pub mod progress;
pub mod token;
pub mod wordlist;
pub mod factory;
