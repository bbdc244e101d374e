//! Supervision loop for long-running relay processes that move information
//! between two independently failing remote systems.
//!
//! The crate supplies a generic relay [`Loop`] that repeatedly runs a
//! caller-supplied task, classifies which peer caused a failure, reconnects
//! exactly the failed side(s) with a fixed inter-attempt delay, and resumes
//! the task until it reports clean completion.  An optional staged metrics
//! builder attaches loop-driven and standalone metrics before the loop starts.

pub mod driver;
pub mod failure;
pub mod host;
pub mod metrics;
pub mod relay_loop;

pub use failure::{FailedClient, MaybeConnectionError};
pub use metrics::{Metrics, MetricsParams, StandaloneMetrics};
pub use relay_loop::{relay_loop, Client, Loop, LoopMetrics};
