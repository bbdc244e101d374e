//! Metrics capabilities and the trusted boundary to the metrics registry.
//!
//! Two kinds of metric exist: a loop-driven metric is cloned into every task
//! invocation and updated by the task itself; a standalone metric spawns its
//! own background update cycle once registered and is never touched again.

use vstd::prelude::*;

use substrate_prometheus_endpoint::{init_prometheus, Registry};

verus! {

#[verifier::external_type_specification]
#[verifier::external_body]
pub struct ExRegistry(Registry);

/// Parameters for exposing the metrics registry over a scrape endpoint.
#[derive(Clone, Debug)]
pub struct MetricsParams {
    /// Interface to serve the endpoint at.
    pub host: String,
    /// Port to serve the endpoint at.
    pub port: u16,
}

/// A metric that is driven by the relay loop itself: after registration it
/// is handed to every task invocation so the task can update it each pass.
pub trait Metrics: Sized {
    /// Register the metric in the given registry.  Fails, with a descriptive
    /// message, when the registry refuses the metric (for instance on a name
    /// collision).
    fn register(&self, registry: &Registry) -> Result<(), String>;
}

/// A metric that runs autonomously: once registered it is told to spawn its
/// own background update task, which lives for the rest of the process.
pub trait StandaloneMetrics: Metrics {
    /// Start the background task that keeps the metric up to date.
    fn spawn(self);
}

/// Relies on `prometheus::Registry::new_custom`, which returns a registry
/// with the given name prefix and fails only when the prefix is empty; the
/// precondition rules that input out.
#[verifier::external_body]
pub(crate) fn new_prefixed_registry(prefix: String) -> (r: Registry)
    requires
        prefix@.len() > 0,
{
    Registry::new_custom(Some(prefix), None).expect("prefix is not empty, so the registry call cannot fail")
}

/// Relies on `async_std::task::spawn` and
/// `substrate_prometheus_endpoint::init_prometheus`: serves the registry at
/// the given host and port (the host already validated, and bracketed when
/// it is a colon-grouped address) as a detached background task.  The task's
/// own failure is not reported back; the relay must not depend on it.
#[verifier::external_body]
pub(crate) fn spawn_exposition(registry: Registry, host: String, port: u16) {
    let authority = format!("{}:{}", host, port);
    if let Ok(addr) = authority.parse() {
        let _ = async_std::task::spawn(init_prometheus(addr, registry));
    }
}

} // verus!
