//! Core of a service that tracks a small, versioned behavioral state per
//! user: a validated snapshot model, an in-memory state store with an
//! optional bounded per-user history, a fixed-window rate limiter, an
//! API-key auth guard, and the request-governance pipeline that composes
//! them.

pub mod api;
pub mod auth;
pub mod axes;
pub mod concurrent_map;
pub mod health;
pub mod laws;
pub mod limiter;
pub mod pipeline;
pub mod qdrant;
pub mod snapshot;
pub mod store;
pub mod text;
pub mod traits;

use vstd::prelude::*;

verus! {

/// Largest admissible axis or confidence value, in thousandths.
pub const VALUE_MILLI_MAX: u32 = 1000;

/// True when a scaled axis or confidence value lies in the declared range.
pub open spec fn value_in_range(v: u32) -> bool {
    v <= VALUE_MILLI_MAX
}

/// Range check used by snapshot validation.
pub fn check_value_in_range(v: u32) -> (r: bool)
    ensures
        r == value_in_range(v),
{
    v <= VALUE_MILLI_MAX
}

} // verus!
