//! Core of an authentication service: a credential store, a session store,
//! and the orchestrator that ties them together behind three operations
//! (sign-up, sign-in, sign-out).

pub mod auth;
mod ids;
pub mod sessions;
pub mod users;

use vstd::prelude::*;

verus! {

/// A two-valued outcome indicator returned by every operation.
#[derive(Clone, Copy, Debug, PartialEq, Eq, Structural)]
pub enum StatusCode {
    Success,
    Failure,
}

} // verus!
