use vstd::prelude::*;

pub mod acquire;
pub mod cache;
pub mod codec;
pub mod config;
pub mod model;
pub mod oauth2;
pub mod pkce;
pub mod redirect;
pub mod strutil;
pub mod valid;

verus! {

/// Number of milliseconds in one second, used by all expiry arithmetic.
pub const MILLIS_PER_SECOND: u64 = 1000;

} // verus!

