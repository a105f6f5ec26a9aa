//! The settings of the HTTP clients.
//!
//! Times are in milliseconds.

use vstd::prelude::*;

verus! {

/// How an HTTP client is set up.
pub struct ClientOptions {
    /// How many idle connections to a host are kept at most.
    pub max_idle_per_host: usize,
    /// For how long an idle connection is kept.
    pub idle_timeout_ms: u64,
    /// After how long without traffic a connection is probed.
    pub keepalive_ms: u64,
    /// Whether small packets are sent at once.
    pub nodelay: bool,
    /// How long connecting may take.
    pub connect_timeout_ms: u64,
    /// How long reading may take without anything coming; no limit for `None`.
    pub read_timeout_ms: Option<u64>,
    /// Whether redirects are followed.
    pub follow_redirects: bool,
    /// Whether HTTP/2 is spoken without negotiating it.
    pub http2_prior_knowledge: bool,
}

/// The settings of the client that asks projects for manifests.
pub open spec fn manifest_client(
    max_idle_per_host: usize,
    idle_timeout_ms: u64,
    http2_prior_knowledge: bool,
) -> ClientOptions {
    ClientOptions {
        max_idle_per_host,
        idle_timeout_ms,
        keepalive_ms: 30_000,
        nodelay: true,
        connect_timeout_ms: 5_000,
        read_timeout_ms: None,
        follow_redirects: false,
        http2_prior_knowledge,
    }
}

/// The settings of the client that streams blobs.
pub open spec fn blob_client(
    http2_prior_knowledge: bool,
    read_timeout_ms: Option<u64>,
) -> ClientOptions {
    ClientOptions {
        max_idle_per_host: 256,
        idle_timeout_ms: 90_000,
        keepalive_ms: 30_000,
        nodelay: true,
        connect_timeout_ms: 5_000,
        read_timeout_ms,
        follow_redirects: false,
        http2_prior_knowledge,
    }
}

impl ClientOptions {
    /// The settings of the client that asks projects for manifests: at most so many
    /// idle connections, and no redirects. A request has no time limit but the
    /// one that is set for it alone.
    pub fn for_manifests(
        max_idle_per_host: usize,
        idle_timeout_ms: u64,
        http2_prior_knowledge: bool,
    ) -> (r: ClientOptions)
        ensures
            r == manifest_client(max_idle_per_host, idle_timeout_ms, http2_prior_knowledge),
    {
        ClientOptions {
            max_idle_per_host,
            idle_timeout_ms,
            keepalive_ms: 30_000,
            nodelay: true,
            connect_timeout_ms: 5_000,
            read_timeout_ms: None,
            follow_redirects: false,
            http2_prior_knowledge,
        }
    }

    /// The settings of the client that streams blobs. It does not follow
    /// redirects: they are the client's to follow.
    pub fn for_blobs(http2_prior_knowledge: bool, read_timeout_ms: Option<u64>) -> (r:
        ClientOptions)
        ensures
            r == blob_client(http2_prior_knowledge, read_timeout_ms),
    {
        ClientOptions {
            max_idle_per_host: 256,
            idle_timeout_ms: 90_000,
            keepalive_ms: 30_000,
            nodelay: true,
            connect_timeout_ms: 5_000,
            read_timeout_ms,
            follow_redirects: false,
            http2_prior_knowledge,
        }
    }
}

} // verus!
