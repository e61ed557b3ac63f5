//! A bounded, time-aware key/value cache with verified behaviour.
//!
//! Time is explicit: every operation that depends on the clock takes the
//! current tick as an argument, so the cache itself is a pure state machine
//! whose every transition is specified over a mathematical map.

pub mod entry;
pub mod model;
pub mod error;
pub mod cache;
pub mod user;
pub mod laws;

pub use cache::Cache;
pub use entry::Entry;
pub use error::{ComputeError, InsertError};
pub use user::{fetch_user, User};
