//! Core of an authentication service: credential validation and hashing,
//! session-token issuance and revocation, and a single-use second-factor
//! challenge protocol, with the in-memory storage backings.
//!
//! Transport, persistence drivers and other I/O live outside this crate; the
//! functions here take plain values (strings, the current time in seconds)
//! and return typed outcomes.

pub mod domain;
pub mod routes;
pub mod services;
pub mod utils;

use vstd::prelude::*;

verus! {

/// Body shape of an error reply at the boundary.
pub struct ErrorResponse {
    pub error: String,
}

} // verus!
