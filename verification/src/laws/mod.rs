//! What the functions of the library promise together, stated of their calls.
//!
//! `call_ensures(f, args, r)` says that a call of `f` with `args` can return `r`. So
//! each law here speaks of what callers see: the arguments, the results, and how the
//! results of several calls relate.

pub mod breaker;
pub mod cache;
pub mod client;
pub mod config;
pub mod discovery;
pub mod duration;
pub mod flights;
pub mod headers;
pub mod metrics;
pub mod proxy;
pub mod rate;
pub mod resolver;
pub mod secret;
pub mod text;
