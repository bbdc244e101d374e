//! The reconnection protocol of the relay driver, as a state machine.
//!
//! The executable driver in `relay_loop` follows this machine step by step:
//! every action it performs is the action of its current phase, and every
//! outcome it observes advances the phase through [`step`].  The proof
//! functions at the end of this module state the laws of the protocol:
//! which peers a recovery pass attempts and in which order, when the pass
//! restarts, and when the driver may resume or finish the task.

use vstd::prelude::*;

use crate::failure::{implicates_source, implicates_target, FailedClient};

verus! {

/// The control state of the driver between two of its actions.
pub enum DriverPhase {
    /// Run one invocation of the relay task.
    RunTask,
    /// Wait for the reconnect delay before attempting recovery for the
    /// recorded failure.
    Delay(FailedClient),
    /// Attempt to reconnect the source peer.
    ReconnectSource(FailedClient),
    /// Attempt to reconnect the target peer.
    ReconnectTarget(FailedClient),
    /// The task reported clean completion; the driver has finished.
    Done,
}

/// What the driver observes after performing the action of a phase.
pub enum DriverEvent {
    /// The task resolved to clean completion.
    TaskOk,
    /// The task aborted, classifying the failed peer(s).
    TaskFailed(FailedClient),
    /// The reconnect delay has elapsed.
    Slept,
    /// The attempted reconnect succeeded.
    ReconnectOk,
    /// The attempted reconnect failed.
    ReconnectErr,
}

/// The single action the driver performs in each phase.
pub enum DriverAction {
    /// Invoke the relay task with fresh clones of the clients.
    InvokeTask,
    /// Suspend for the reconnect delay.
    Sleep,
    /// Call `reconnect` on the source client.
    AttemptSource,
    /// Call `reconnect` on the target client.
    AttemptTarget,
    /// Return success to the caller.
    Finish,
}

/// The action the driver performs in the given phase.
pub open spec fn action_of(p: DriverPhase) -> DriverAction {
    match p {
        DriverPhase::RunTask => DriverAction::InvokeTask,
        DriverPhase::Delay(_) => DriverAction::Sleep,
        DriverPhase::ReconnectSource(_) => DriverAction::AttemptSource,
        DriverPhase::ReconnectTarget(_) => DriverAction::AttemptTarget,
        DriverPhase::Done => DriverAction::Finish,
    }
}

/// True when the event is a possible outcome of the phase's action.
pub open spec fn event_fits(p: DriverPhase, e: DriverEvent) -> bool {
    match p {
        DriverPhase::RunTask => e is TaskOk || e is TaskFailed,
        DriverPhase::Delay(_) => e is Slept,
        DriverPhase::ReconnectSource(_) => e is ReconnectOk || e is ReconnectErr,
        DriverPhase::ReconnectTarget(_) => e is ReconnectOk || e is ReconnectErr,
        DriverPhase::Done => false,
    }
}

/// The next phase of the driver after observing an event.
///
/// A failed reconnect returns to the delay phase, so the whole recovery pass
/// restarts; a successful pass returns to running the task; the task's clean
/// completion is the only way to reach the terminal phase.
pub open spec fn step(p: DriverPhase, e: DriverEvent) -> DriverPhase {
    match (p, e) {
        (DriverPhase::RunTask, DriverEvent::TaskOk) => DriverPhase::Done,
        (DriverPhase::RunTask, DriverEvent::TaskFailed(fc)) => DriverPhase::Delay(fc),
        (DriverPhase::Delay(fc), DriverEvent::Slept) => if implicates_source(fc) {
            DriverPhase::ReconnectSource(fc)
        } else {
            DriverPhase::ReconnectTarget(fc)
        },
        (DriverPhase::ReconnectSource(fc), DriverEvent::ReconnectOk) => if implicates_target(fc) {
            DriverPhase::ReconnectTarget(fc)
        } else {
            DriverPhase::RunTask
        },
        (DriverPhase::ReconnectSource(fc), DriverEvent::ReconnectErr) => DriverPhase::Delay(fc),
        (DriverPhase::ReconnectTarget(fc), DriverEvent::ReconnectOk) => DriverPhase::RunTask,
        (DriverPhase::ReconnectTarget(fc), DriverEvent::ReconnectErr) => DriverPhase::Delay(fc),
        _ => p,
    }
}

/// The phase reached from `init` after observing all of `events`, in order.
pub open spec fn phase_after(init: DriverPhase, events: Seq<DriverEvent>) -> DriverPhase
    decreases events.len(),
{
    if events.len() == 0 {
        init
    } else {
        step(phase_after(init, events.drop_last()), events.last())
    }
}

/// The phases visited from `init` while observing `events`: entry `i` is the
/// phase after the first `i` events, so the trace starts at `init` and is one
/// longer than `events`.
pub open spec fn phases_trace(init: DriverPhase, events: Seq<DriverEvent>) -> Seq<DriverPhase> {
    Seq::new(events.len() + 1, |i: int| phase_after(init, events.take(i)))
}

/// True when every event of the sequence is a possible outcome of the action
/// of the phase the driver is then in.
pub open spec fn valid_events(init: DriverPhase, events: Seq<DriverEvent>) -> bool {
    forall|i: int|
        0 <= i < events.len() ==> #[trigger] event_fits(
            phase_after(init, events.take(i)),
            events[i],
        )
}

/// Appending an event that fits the current phase keeps the event sequence
/// valid and advances the final phase by one step.
pub proof fn lemma_events_extend(init: DriverPhase, events: Seq<DriverEvent>, e: DriverEvent)
    requires
        valid_events(init, events),
        event_fits(phase_after(init, events), e),
    ensures
        valid_events(init, events.push(e)),
        phase_after(init, events.push(e)) == step(phase_after(init, events), e),
{
    let ext = events.push(e);
    assert(ext.drop_last() =~= events);
    assert(ext.last() == e);
    assert forall|i: int| 0 <= i < ext.len() implies #[trigger] event_fits(
        phase_after(init, ext.take(i)),
        ext[i],
    ) by {
        if i < events.len() {
            assert(ext.take(i) =~= events.take(i));
            assert(ext[i] == events[i]);
            assert(event_fits(phase_after(init, events.take(i)), events[i]));
        } else {
            assert(ext.take(i) =~= events);
        }
    }
}

/// The events of a recovery pass in which every attempted reconnect
/// succeeds: the delay elapses, then one successful attempt for each
/// implicated peer.
pub open spec fn recovery_events(fc: FailedClient) -> Seq<DriverEvent> {
    seq![DriverEvent::Slept] + (if implicates_source(fc) {
        seq![DriverEvent::ReconnectOk]
    } else {
        Seq::<DriverEvent>::empty()
    }) + (if implicates_target(fc) {
        seq![DriverEvent::ReconnectOk]
    } else {
        Seq::<DriverEvent>::empty()
    })
}

/// Law: a recovery pass for failure `fc` in which every attempt succeeds
/// visits exactly the reconnect phases of the peers implicated by `fc`, in
/// the fixed order source-then-target, and then resumes the task.  The trace
/// is listed in full, so no other attempt occurs in the pass.
pub proof fn lemma_recovery_attempts_exactly_implicated(fc: FailedClient)
    ensures
        phase_after(DriverPhase::Delay(fc), recovery_events(fc)) == DriverPhase::RunTask,
        fc == FailedClient::Source ==> phases_trace(DriverPhase::Delay(fc), recovery_events(fc))
            =~= seq![
            DriverPhase::Delay(fc),
            DriverPhase::ReconnectSource(fc),
            DriverPhase::RunTask,
        ],
        fc == FailedClient::Target ==> phases_trace(DriverPhase::Delay(fc), recovery_events(fc))
            =~= seq![
            DriverPhase::Delay(fc),
            DriverPhase::ReconnectTarget(fc),
            DriverPhase::RunTask,
        ],
        fc == FailedClient::Both ==> phases_trace(DriverPhase::Delay(fc), recovery_events(fc))
            =~= seq![
            DriverPhase::Delay(fc),
            DriverPhase::ReconnectSource(fc),
            DriverPhase::ReconnectTarget(fc),
            DriverPhase::RunTask,
        ],
{
    reveal_with_fuel(phase_after, 4);
    let init = DriverPhase::Delay(fc);
    let es = recovery_events(fc);
    let e0 = Seq::<DriverEvent>::empty();
    let e1 = seq![DriverEvent::Slept];
    assert(phase_after(init, e0) == init);
    assert(e1.drop_last() =~= e0);
    assert(e1.last() == DriverEvent::Slept);
    assert(phase_after(init, e1) == step(init, DriverEvent::Slept));
    if fc == FailedClient::Both {
        let e2 = seq![DriverEvent::Slept, DriverEvent::ReconnectOk];
        assert(es =~= seq![DriverEvent::Slept, DriverEvent::ReconnectOk, DriverEvent::ReconnectOk]);
        assert(e2.drop_last() =~= e1);
        assert(e2.last() == DriverEvent::ReconnectOk);
        assert(phase_after(init, e2) == DriverPhase::ReconnectTarget(fc));
        assert(es.drop_last() =~= e2);
        assert(es.last() == DriverEvent::ReconnectOk);
        assert(phase_after(init, es) == DriverPhase::RunTask);
        assert(es.take(0) =~= e0);
        assert(es.take(1) =~= e1);
        assert(es.take(2) =~= e2);
        assert(es.take(3) =~= es);
    } else {
        assert(es =~= seq![DriverEvent::Slept, DriverEvent::ReconnectOk]);
        assert(es.drop_last() =~= e1);
        assert(es.last() == DriverEvent::ReconnectOk);
        assert(phase_after(init, es) == DriverPhase::RunTask);
        assert(es.take(0) =~= e0);
        assert(es.take(1) =~= e1);
        assert(es.take(2) =~= es);
    }
}

/// Law: if the source reconnect fails, the whole pass restarts from the
/// delay; in particular the target is not attempted in that pass, since the
/// phase that follows the failure asks for a sleep, not for an attempt.
pub proof fn lemma_source_failure_restarts_pass(fc: FailedClient)
    ensures
        step(DriverPhase::ReconnectSource(fc), DriverEvent::ReconnectErr) == DriverPhase::Delay(
            fc,
        ),
        action_of(DriverPhase::Delay(fc)) == DriverAction::Sleep,
{
}

/// Law: the target is attempted only straight after a successful source
/// attempt, or straight after the delay when the failure does not implicate
/// the source.  A failed source attempt therefore never leads into a target
/// attempt within the same pass.
pub proof fn lemma_target_attempt_only_after_source(
    p: DriverPhase,
    e: DriverEvent,
    fc: FailedClient,
)
    requires
        event_fits(p, e),
        step(p, e) == DriverPhase::ReconnectTarget(fc),
    ensures
        (p == DriverPhase::ReconnectSource(fc) && e == DriverEvent::ReconnectOk) || (p
            == DriverPhase::Delay(fc) && e == DriverEvent::Slept && !implicates_source(fc)),
{
}

/// Law: the driver resumes the task only once the last implicated reconnect
/// of the pass has succeeded: the phase entered from a successful final
/// attempt, and from nothing else, is the task phase.
pub proof fn lemma_task_resumes_only_after_recovery(p: DriverPhase, e: DriverEvent)
    requires
        event_fits(p, e),
        step(p, e) == DriverPhase::RunTask,
    ensures
        e == DriverEvent::ReconnectOk,
        p is ReconnectSource || p is ReconnectTarget,
        p matches DriverPhase::ReconnectSource(fc) ==> !implicates_target(fc),
{
}

/// Law: the driver finishes exactly when the task reports clean completion;
/// no reconnect outcome and no task failure reaches the terminal phase, so
/// any number of failure cycles keep the loop running.  No event fits the
/// terminal phase: a finished driver takes no further step.
pub proof fn lemma_finishes_only_on_clean_completion(p: DriverPhase, e: DriverEvent)
    ensures
        step(p, e) == DriverPhase::Done <==> ((p == DriverPhase::RunTask && e
            == DriverEvent::TaskOk) || p == DriverPhase::Done),
        !event_fits(DriverPhase::Done, e),
{
}

/// Law: a run of the driver, begun at the task phase, finishes exactly when
/// its last observed outcome is the task's clean completion.  Any number of
/// task failures and recovery cycles may precede that outcome without
/// reaching the terminal phase, and nothing is observed after it.
pub proof fn lemma_done_iff_clean_completion(events: Seq<DriverEvent>)
    requires
        valid_events(DriverPhase::RunTask, events),
    ensures
        phase_after(DriverPhase::RunTask, events) == DriverPhase::Done <==> (events.len() > 0
            && events.last() == DriverEvent::TaskOk),
{
    let init = DriverPhase::RunTask;
    if events.len() > 0 {
        let last = events.len() - 1;
        assert(events.take(last) =~= events.drop_last());
        assert(event_fits(phase_after(init, events.take(last)), events[last]));
        assert(events[last] == events.last());
        let prev = phase_after(init, events.drop_last());
        if events.last() == DriverEvent::TaskOk {
            assert(prev == DriverPhase::RunTask);
        }
        if phase_after(init, events) == DriverPhase::Done {
            assert(prev == DriverPhase::RunTask && events.last() == DriverEvent::TaskOk);
        }
    }
}

/// While only recovery outcomes (delay elapses, reconnect results) are
/// observed, the driver stays within the recovery phases of the original
/// failure or has already resumed the task.
pub proof fn lemma_recovery_stays_on_failure(fc: FailedClient, events: Seq<DriverEvent>, k: int)
    requires
        valid_events(DriverPhase::Delay(fc), events),
        0 <= k <= events.len(),
        forall|m: int|
            0 <= m < k ==> (events[m] is Slept || events[m] is ReconnectOk
                || events[m] is ReconnectErr),
    ensures
        phase_after(DriverPhase::Delay(fc), events.take(k)) == DriverPhase::Delay(fc)
            || phase_after(DriverPhase::Delay(fc), events.take(k)) == DriverPhase::ReconnectSource(
            fc,
        ) || phase_after(DriverPhase::Delay(fc), events.take(k)) == DriverPhase::ReconnectTarget(
            fc,
        ) || phase_after(DriverPhase::Delay(fc), events.take(k)) == DriverPhase::RunTask,
    decreases k,
{
    let init = DriverPhase::Delay(fc);
    if k == 0 {
        assert(events.take(0) =~= Seq::<DriverEvent>::empty());
    } else {
        lemma_recovery_stays_on_failure(fc, events, k - 1);
        assert(event_fits(phase_after(init, events.take(k - 1)), events[k - 1]));
        assert(events.take(k).drop_last() =~= events.take(k - 1));
        assert(events.take(k).last() == events[k - 1]);
        let prev = phase_after(init, events.take(k - 1));
        if prev == DriverPhase::RunTask {
            assert(!(events[k - 1] is Slept || events[k - 1] is ReconnectOk || events[k
                - 1] is ReconnectErr));
        }
    }
}

/// Law: the driver never resumes the task until every reconnect the failure
/// requires has succeeded.  In any valid run of recovery outcomes that
/// reaches the task phase, a successful source attempt stands in the trace
/// whenever the source is implicated, and a successful target attempt
/// whenever the target is.  When both are implicated, the successful source
/// attempt stands immediately before the successful target attempt.
#[verifier::rlimit(30)]
pub proof fn lemma_no_task_before_full_recovery(fc: FailedClient, events: Seq<DriverEvent>, i: int)
    requires
        valid_events(DriverPhase::Delay(fc), events),
        0 <= i <= events.len(),
        forall|m: int|
            0 <= m < i ==> (events[m] is Slept || events[m] is ReconnectOk
                || events[m] is ReconnectErr),
        phase_after(DriverPhase::Delay(fc), events.take(i)) == DriverPhase::RunTask,
        forall|m: int|
            0 <= m < i ==> phase_after(DriverPhase::Delay(fc), events.take(m))
                != DriverPhase::RunTask,
    ensures
        implicates_source(fc) ==> exists|j: int|
            0 <= j < i && #[trigger] phase_after(DriverPhase::Delay(fc), events.take(j))
                == DriverPhase::ReconnectSource(fc) && events[j] == DriverEvent::ReconnectOk,
        implicates_target(fc) ==> exists|j: int|
            0 <= j < i && #[trigger] phase_after(DriverPhase::Delay(fc), events.take(j))
                == DriverPhase::ReconnectTarget(fc) && events[j] == DriverEvent::ReconnectOk,
        implicates_source(fc) && implicates_target(fc) ==> exists|j: int|
            0 <= j < i - 1 && #[trigger] phase_after(DriverPhase::Delay(fc), events.take(j))
                == DriverPhase::ReconnectSource(fc) && events[j] == DriverEvent::ReconnectOk
                && phase_after(DriverPhase::Delay(fc), events.take(j + 1))
                == DriverPhase::ReconnectTarget(fc) && events[j + 1] == DriverEvent::ReconnectOk,
{
    let init = DriverPhase::Delay(fc);
    assert(i > 0) by {
        assert(events.take(0) =~= Seq::<DriverEvent>::empty());
    }
    assert(events.take(i).drop_last() =~= events.take(i - 1));
    assert(events.take(i).last() == events[i - 1]);
    let prev = phase_after(init, events.take(i - 1));
    lemma_recovery_stays_on_failure(fc, events, i - 1);
    assert(event_fits(prev, events[i - 1]));
    if prev == DriverPhase::ReconnectSource(fc) {
        assert(!implicates_target(fc));
        assert(events[i - 1] == DriverEvent::ReconnectOk);
    } else {
        assert(prev == DriverPhase::ReconnectTarget(fc));
        assert(events[i - 1] == DriverEvent::ReconnectOk);
        if implicates_source(fc) {
            assert(i > 1) by {
                assert(events.take(1).drop_last() =~= Seq::<DriverEvent>::empty());
                if i == 1 {
                    assert(phase_after(init, events.take(1)) == step(init, events[0]));
                }
            }
            assert(events.take(i - 1).drop_last() =~= events.take(i - 2));
            assert(events.take(i - 1).last() == events[i - 2]);
            let prev2 = phase_after(init, events.take(i - 2));
            lemma_recovery_stays_on_failure(fc, events, i - 2);
            assert(event_fits(prev2, events[i - 2]));
            assert(prev2 == DriverPhase::ReconnectSource(fc));
            assert(events[i - 2] == DriverEvent::ReconnectOk);
            assert(phase_after(init, events.take(i - 2 + 1)) == DriverPhase::ReconnectTarget(fc)
                && events[i - 2 + 1] == DriverEvent::ReconnectOk);
        }
    }
}

} // verus!
