//! The settings of the HTTP clients.

use vstd::prelude::*;

use crate::client::ClientOptions;

verus! {

/// The clients differ in what they are asked to differ in. Both connect within five
/// seconds, probe an idle connection after thirty, send small packets at once, and leave
/// redirects to the client that asked.
pub proof fn law_clients_have_their_settings(
    max_idle: usize,
    idle_timeout_ms: u64,
    http2: bool,
    read_timeout_ms: Option<u64>,
    manifests: ClientOptions,
    blobs: ClientOptions,
)
    requires
        call_ensures(
            ClientOptions::for_manifests,
            (max_idle, idle_timeout_ms, http2),
            manifests,
        ),
        call_ensures(ClientOptions::for_blobs, (http2, read_timeout_ms), blobs),
    ensures
        manifests.max_idle_per_host == max_idle && blobs.max_idle_per_host == 256,
        manifests.idle_timeout_ms == idle_timeout_ms && blobs.idle_timeout_ms == 90_000,
        manifests.read_timeout_ms is None && blobs.read_timeout_ms == read_timeout_ms,
        manifests.connect_timeout_ms == 5_000 && blobs.connect_timeout_ms == 5_000,
        manifests.keepalive_ms == 30_000 && blobs.keepalive_ms == 30_000,
        manifests.nodelay && blobs.nodelay,
        !manifests.follow_redirects && !blobs.follow_redirects,
        manifests.http2_prior_knowledge == http2 && blobs.http2_prior_knowledge == http2,
{
}

} // verus!
