//! Routing core of a proxy-cache router for container registries.

pub mod breaker;
pub mod cache;
pub mod client;
pub mod config;
pub mod counts;
pub mod discovery;
pub mod duration;
pub mod flights;
pub mod headers;
pub mod laws;
pub mod metrics;
pub mod proxy;
pub mod rate;
pub mod resolver;
pub mod secret;
pub mod text;
