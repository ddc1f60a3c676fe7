use vstd::prelude::*;

pub mod http;
pub mod laws;
pub mod models;
pub mod rankings;
pub mod reports;
pub mod store;
pub mod views;

verus! {

/// Body of the liveness endpoint: a fixed marker string.
pub fn health_check() -> (r: &'static str)
    ensures
        r@ == "API is running!"@,
{
    "API is running!"
}

} // verus!
