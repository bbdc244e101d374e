//! The relay loop, its run driver, and the staged metrics builder.

use core::time::Duration;

use vstd::prelude::*;
use vstd::string::{StringExecFns, StringSliceAdditionalSpecFns};

use substrate_prometheus_endpoint::Registry;

use crate::driver::{
    action_of, lemma_events_extend, phase_after, step, valid_events, DriverAction, DriverEvent,
    DriverPhase,
};
use crate::failure::{FailedClient, MaybeConnectionError};
use crate::host::{classify_host, host_kind_of, HostKind};
use crate::metrics::{
    new_prefixed_registry, spawn_exposition, Metrics, MetricsParams, StandaloneMetrics,
};

verus! {

/// The duration that `core::time::Duration::from_secs` returns for the
/// given count of seconds: the result depends on that count alone.
pub uninterp spec fn duration_of_secs(secs: u64) -> Duration;

/// Relies on `core::time::Duration::from_secs` to build the default pause
/// between reconnect attempts.
pub assume_specification[ Duration::from_secs ](secs: u64) -> (d: Duration)
    ensures
        d == duration_of_secs(secs),
;

/// Relies on `async_std::task::block_on` and `async_std::task::sleep`:
/// suspends the caller for the given span of time.
#[verifier::external_body]
fn sleep_for(delay: Duration) {
    async_std::task::block_on(async_std::task::sleep(delay))
}

/// Basic peer client from the relay perspective.
pub trait Client: Clone + Sized {
    /// Type of error this client returns.
    type Error: MaybeConnectionError;

    /// Try to reconnect to the peer.  On success the client's own transport
    /// is replaced in place; on error the client stays in its prior state so
    /// the caller may retry.
    fn reconnect(&mut self) -> Result<(), Self::Error>;
}

/// Returns a generic relay loop that may be customized and started.  The
/// delay between reconnect attempts starts at its default of ten seconds.
pub fn relay_loop<SC, TC>(source_client: SC, target_client: TC) -> (l: Loop<SC, TC, ()>)
    ensures
        l.delay() == duration_of_secs(10),
        l.source() == source_client,
        l.target() == target_client,
        l.metric() is None,
{
    Loop {
        reconnect_delay: Duration::from_secs(10),
        source_client,
        target_client,
        loop_metric: None,
    }
}

/// Generic relay loop: the two peer clients, the pause between reconnect
/// attempts, and the optional metric handed to every task invocation.
pub struct Loop<SC, TC, LM> {
    reconnect_delay: Duration,
    source_client: SC,
    target_client: TC,
    loop_metric: Option<LM>,
}

/// Relay loop metrics builder: the pending loop, the registry the metrics
/// are registered in, and the loop-driven metric gathered so far.
pub struct LoopMetrics<SC, TC, LM> {
    relay_loop: Loop<SC, TC, ()>,
    registry: Registry,
    loop_metric: Option<LM>,
}

impl<SC, TC, LM> Loop<SC, TC, LM> {
    /// The pause between reconnect attempts.
    pub closed spec fn delay(self) -> Duration {
        self.reconnect_delay
    }

    /// The retained source client.
    pub closed spec fn source(self) -> SC {
        self.source_client
    }

    /// The retained target client.
    pub closed spec fn target(self) -> TC {
        self.target_client
    }

    /// The loop-driven metric, if one was attached.
    pub closed spec fn metric(self) -> Option<LM> {
        self.loop_metric
    }

    /// Customize the delay between reconnect attempts.
    pub fn reconnect_delay(self, reconnect_delay: Duration) -> (l: Self)
        ensures
            l.delay() == reconnect_delay,
            l.source() == self.source(),
            l.target() == self.target(),
            l.metric() == self.metric(),
    {
        Loop { reconnect_delay, ..self }
    }

    /// Start building loop metrics using the given prefix.  The prefix must
    /// not be empty: an empty prefix is a caller defect, not a runtime
    /// condition, so it is ruled out before the call.
    pub fn with_metrics(self, prefix: String) -> (m: LoopMetrics<SC, TC, ()>)
        requires
            prefix@.len() > 0,
        ensures
            m.delay() == self.delay(),
            m.source() == self.source(),
            m.target() == self.target(),
            m.metric() is None,
    {
        LoopMetrics {
            relay_loop: Loop {
                reconnect_delay: self.reconnect_delay,
                source_client: self.source_client,
                target_client: self.target_client,
                loop_metric: None,
            },
            registry: new_prefixed_registry(prefix),
            loop_metric: None,
        }
    }

    /// Run one invocation of the relay task, handing it fresh clones of the
    /// clients and of the metric, as the driver does at the start of every
    /// cycle.  The result is whatever the task resolved to: clean
    /// completion, or the classification of the peer(s) that failed.
    ///
    /// An outer loop that repeats this call, recovering with
    /// [`Loop::recover`] after every failure until this call resolves
    /// cleanly, is the whole relay driver; the repetition itself must live
    /// with the caller, since it deliberately has no termination measure.
    pub fn run_once<R>(&self, run_loop: &R) -> (r: Result<(), FailedClient>) where
        R: Fn(SC, TC, Option<LM>) -> Result<(), FailedClient>,
        SC: Client,
        TC: Client,
        LM: Clone,

        requires
            forall|s: SC, t: TC, m: Option<LM>| #[trigger] call_requires(*run_loop, (s, t, m)),
        ensures
            exists|s: SC, t: TC, m: Option<LM>|
                {
                    &&& vstd::pervasive::cloned(self.source(), s)
                    &&& vstd::pervasive::cloned(self.target(), t)
                    &&& vstd::pervasive::cloned(self.metric(), m)
                    &&& #[trigger] call_ensures(*run_loop, (s, t, m), r)
                },
    {
        let source = self.source_client.clone();
        let target = self.target_client.clone();
        let metric = self.loop_metric.clone();
        let ghost gs = source;
        let ghost gt = target;
        let ghost gm = metric;
        let result = (*run_loop)(source, target, metric);
        proof {
            assert(vstd::pervasive::cloned(self.source(), gs));
            assert(vstd::pervasive::cloned(self.target(), gt));
            assert(vstd::pervasive::cloned(self.metric(), gm));
            assert(call_ensures(*run_loop, (gs, gt, gm), result));
        }
        result
    }

    /// Run one recovery pass for the given failure: sleep for the reconnect
    /// delay, then reconnect the implicated side(s) in the fixed order
    /// source-then-target, abandoning the pass at the first attempt that
    /// fails.  Returns the peer whose attempt failed — `None` when every
    /// implicated side is healthy again, and never `Both`, since a pass
    /// stops at its first failure — together with the trace of outcomes the
    /// pass observed.
    ///
    /// The trace is a valid run of the phase machine of [`crate::driver`]
    /// from the delay phase of the failure: it starts with the elapsed
    /// delay, holds only recovery outcomes, ends in the task phase exactly
    /// when the pass recovered and back in the delay phase otherwise, and
    /// its last entry is the failed attempt of the reported peer when one
    /// is reported.  The laws of that module therefore apply to every pass:
    /// only implicated peers are attempted, in order, and no pass moves on
    /// past a failed attempt.
    pub fn recover(&mut self, failed_client: FailedClient) -> (r: (
        Option<FailedClient>,
        Ghost<Seq<DriverEvent>>,
    )) where SC: Client, TC: Client
        ensures
            valid_events(DriverPhase::Delay(failed_client), r.1@),
            forall|m: int|
                0 <= m < r.1@.len() ==> (r.1@[m] is Slept || r.1@[m] is ReconnectOk
                    || r.1@[m] is ReconnectErr),
            1 <= r.1@.len() <= 3,
            r.1@[0] == DriverEvent::Slept,
            phase_after(DriverPhase::Delay(failed_client), r.1@) == if r.0 is None {
                DriverPhase::RunTask
            } else {
                DriverPhase::Delay(failed_client)
            },
            r.0 matches Some(side) ==> (side == FailedClient::Source || side
                == FailedClient::Target) && r.1@.last() == DriverEvent::ReconnectErr,
            r.0 == Some(FailedClient::Source) ==> phase_after(
                DriverPhase::Delay(failed_client),
                r.1@.drop_last(),
            ) == DriverPhase::ReconnectSource(failed_client),
            r.0 == Some(FailedClient::Target) ==> phase_after(
                DriverPhase::Delay(failed_client),
                r.1@.drop_last(),
            ) == DriverPhase::ReconnectTarget(failed_client),
            final(self).delay() == old(self).delay(),
            final(self).metric() == old(self).metric(),
    {
        let ghost init = DriverPhase::Delay(failed_client);
        let ghost mut events: Seq<DriverEvent> = Seq::empty();
        let ghost mut phase = init;
        proof {
            assert(phase_after(init, events) == init);
            assert(action_of(phase) == DriverAction::Sleep);
        }
        sleep_for(self.reconnect_delay);
        proof {
            lemma_events_extend(init, events, DriverEvent::Slept);
            events = events.push(DriverEvent::Slept);
            phase = step(phase, DriverEvent::Slept);
        }
        let mut failed_side: Option<FailedClient> = None;
        if failed_client == FailedClient::Both || failed_client == FailedClient::Source {
            proof {
                assert(action_of(phase) == DriverAction::AttemptSource);
            }
            match self.source_client.reconnect() {
                Ok(()) => {
                    proof {
                        lemma_events_extend(init, events, DriverEvent::ReconnectOk);
                        events = events.push(DriverEvent::ReconnectOk);
                        phase = step(phase, DriverEvent::ReconnectOk);
                    }
                },
                Err(_error) => {
                    failed_side = Some(FailedClient::Source);
                    proof {
                        lemma_events_extend(init, events, DriverEvent::ReconnectErr);
                        let before = events;
                        events = events.push(DriverEvent::ReconnectErr);
                        phase = step(phase, DriverEvent::ReconnectErr);
                        assert(events.drop_last() =~= before);
                        assert(phase_after(init, events.drop_last())
                            == DriverPhase::ReconnectSource(failed_client));
                    }
                },
            }
        }
        if failed_side.is_none() && (failed_client == FailedClient::Both || failed_client
            == FailedClient::Target) {
            proof {
                assert(action_of(phase) == DriverAction::AttemptTarget);
            }
            match self.target_client.reconnect() {
                Ok(()) => {
                    proof {
                        lemma_events_extend(init, events, DriverEvent::ReconnectOk);
                        events = events.push(DriverEvent::ReconnectOk);
                        phase = step(phase, DriverEvent::ReconnectOk);
                    }
                },
                Err(_error) => {
                    failed_side = Some(FailedClient::Target);
                    proof {
                        lemma_events_extend(init, events, DriverEvent::ReconnectErr);
                        let before = events;
                        events = events.push(DriverEvent::ReconnectErr);
                        phase = step(phase, DriverEvent::ReconnectErr);
                        assert(events.drop_last() =~= before);
                        assert(phase_after(init, events.drop_last())
                            == DriverPhase::ReconnectTarget(failed_client));
                    }
                },
            }
        }
        proof {
            assert(phase == if failed_side is None {
                DriverPhase::RunTask
            } else {
                DriverPhase::Delay(failed_client)
            });
        }
        (failed_side, Ghost(events))
    }
}

/// The message returned when the metrics host is not an address literal.
pub open spec fn invalid_host_message(host: Seq<char>) -> Seq<char> {
    "Invalid host "@ + host + " is used to expose Prometheus metrics"@
}

impl<SC, TC, LM> LoopMetrics<SC, TC, LM> {
    /// The pause between reconnect attempts of the pending loop.
    pub closed spec fn delay(self) -> Duration {
        self.relay_loop.reconnect_delay
    }

    /// The retained source client of the pending loop.
    pub closed spec fn source(self) -> SC {
        self.relay_loop.source_client
    }

    /// The retained target client of the pending loop.
    pub closed spec fn target(self) -> TC {
        self.relay_loop.target_client
    }

    /// The loop-driven metric gathered so far.
    pub closed spec fn metric(self) -> Option<LM> {
        self.loop_metric
    }

    /// Add a relay loop metric, to be passed to every task invocation.
    ///
    /// The metric is registered first; a registration failure is surfaced
    /// and leaves the builder chain.  The builder re-types to carry the
    /// metric, so a second loop metric replaces the slot explicitly rather
    /// than standing beside the first.
    pub fn loop_metric<NewLM: Metrics>(self, loop_metric: NewLM) -> (r: Result<
        LoopMetrics<SC, TC, NewLM>,
        String,
    >)
        ensures
            r matches Ok(m) ==> m.delay() == self.delay() && m.source() == self.source()
                && m.target() == self.target() && m.metric() == Some(loop_metric),
    {
        match loop_metric.register(&self.registry) {
            Ok(()) => Ok(
                LoopMetrics {
                    relay_loop: self.relay_loop,
                    registry: self.registry,
                    loop_metric: Some(loop_metric),
                },
            ),
            Err(e) => Err(e),
        }
    }

    /// Add a standalone metric: register it, then let it spawn its own
    /// background update task, which this builder never touches again.  A
    /// registration failure is surfaced and the metric is not spawned.
    pub fn standalone_metric<M: StandaloneMetrics>(self, standalone_metrics: M) -> (r: Result<
        Self,
        String,
    >)
        ensures
            r matches Ok(b) ==> b == self,
    {
        match standalone_metrics.register(&self.registry) {
            Ok(()) => {
                standalone_metrics.spawn();
                Ok(self)
            },
            Err(e) => Err(e),
        }
    }

    /// Expose metrics using the given params, handing back the runnable
    /// loop with the loop-driven metric attached.
    ///
    /// With no params the registry is discarded unused and nothing is
    /// served.  Otherwise the host must be an address literal; a host that
    /// is none fails with a descriptive error, and a valid one has the
    /// registry served at `host:port` by a detached background task whose
    /// own failure never reaches the relay.
    pub fn expose(self, params: Option<MetricsParams>) -> (r: Result<Loop<SC, TC, LM>, String>)
        ensures
            r matches Ok(l) ==> l.delay() == self.delay() && l.source() == self.source()
                && l.target() == self.target() && l.metric() == self.metric(),
            match params {
                None => r is Ok,
                Some(p) => (host_kind_of(vstd::utf8::encode_utf8(p.host@)) is Some ==> r is Ok)
                    && (host_kind_of(vstd::utf8::encode_utf8(p.host@)) is None ==> (
                r matches Err(m) && m@ == invalid_host_message(p.host@))),
            },
    {
        match params {
            None => Ok(
                Loop {
                    reconnect_delay: self.relay_loop.reconnect_delay,
                    source_client: self.relay_loop.source_client,
                    target_client: self.relay_loop.target_client,
                    loop_metric: self.loop_metric,
                },
            ),
            Some(p) => {
                let port = p.port;
                match classify_host(p.host.as_str()) {
                    None => Err(
                        String::from_str("Invalid host ").concat(p.host.as_str()).concat(
                            " is used to expose Prometheus metrics",
                        ),
                    ),
                    Some(kind) => {
                        let bind_host = match kind {
                            HostKind::V4 => p.host,
                            HostKind::V6 => String::from_str("[").concat(p.host.as_str()).concat(
                                "]",
                            ),
                        };
                        spawn_exposition(self.registry, bind_host, port);
                        Ok(
                            Loop {
                                reconnect_delay: self.relay_loop.reconnect_delay,
                                source_client: self.relay_loop.source_client,
                                target_client: self.relay_loop.target_client,
                                loop_metric: self.loop_metric,
                            },
                        )
                    },
                }
            },
        }
    }
}

} // verus!
