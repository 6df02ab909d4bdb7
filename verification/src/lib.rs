//! Slothy: the request logic of a small plant-watering service.
//!
//! Plants are watched by humidity sensors. The service answers which plants
//! exist, what humidity was measured last for a plant, and records new
//! measurements. The database and the HTTP server live around this library;
//! here stand the rules that decide every answer, each with its contract.

pub mod clock;
pub mod error;
pub mod garden;
pub mod humidity;
pub mod ids;
pub mod named;
pub mod names;
pub mod types;

use vstd::prelude::*;

verus! {

/// The body of the answer to `GET /`.
pub fn homepage() -> (body: &'static str)
    ensures
        body@ == "Slothy"@,
{
    "Slothy"
}

} // verus!
