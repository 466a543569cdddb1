//! Fixed-window request rate limiting: window clock, usage evaluation,
//! allow/block decision with rate-limit headers, and optimistic counter
//! increments against a compare-and-swap counter store.

pub mod calendar;
pub mod clock;
pub mod config;
pub mod headers;
pub mod http;
pub mod increment;
pub mod interleaving;
pub mod store;
pub mod text;
pub mod usage;
pub mod window;
