//! What holds of the session state machine whatever the events are.

use vstd::prelude::*;
use crate::session::event::Message;
use crate::session::event::SessionEvent;
use crate::session::machine::Action;
use crate::session::machine::Control;
use crate::session::machine::ForerunnerOutcome;
use crate::session::machine::JobId;
use crate::session::machine::Phase;
use crate::session::machine::Strategy;

verus! {

/// Every reaction keeps the bookkeeping well formed, never restarts a
/// stopped session and never changes an adopted scale.
pub proof fn law_react_preserves_validity(state: Control, event: SessionEvent)
    requires
        state.wf(),
    ensures
        state.react(event).0.wf(),
        state.stopped ==> state.react(event).0 == state,
        state.react(event).0.scale == state.scale,
        state.react(event).0.jobs_started >= state.jobs_started,
{
}

/// A completion keeps the bookkeeping well formed and never restarts a
/// stopped session.
pub proof fn law_finish_preserves_validity(state: Control, job: JobId)
    requires
        state.wf(),
    ensures
        state.finish(job).0.wf(),
        state.finish(job).0.stopped == state.stopped,
        state.finish(job).0.scale == state.scale,
{
}

/// The scale leaves `Unknown` at most once: an adopted scale is never
/// replaced, and only a result that came in time is adopted.
pub proof fn law_scale_adopted_once(state: Control, outcome: ForerunnerOutcome)
    requires
        state.wf(),
    ensures
        state.adopt(outcome).0.wf(),
        !(state.scale is Unknown) ==> state.adopt(outcome).0.scale == state.scale,
        !(outcome is Finished) ==> state.adopt(outcome).0 == state,
        state.adopt(outcome).0.stopped == state.stopped,
{
}

/// Supersession: of two typed queries handled back to back, the first job
/// is cancelled by the second and can no longer publish, while the second
/// publishes exactly once.
pub proof fn law_supersession(state: Control, q1: Message, q2: Message)
    requires
        state.wf(),
        !state.stopped,
        state.jobs_started + 2 <= u64::MAX,
    ensures
        ({
            let (s1, a1) = state.react(SessionEvent::OnTyped(q1));
            let (s2, a2) = s1.react(SessionEvent::OnTyped(q2));
            &&& a1 matches Action::StartTyped { job: j1, msg: m1, .. }
            &&& a2 matches Action::StartTyped { job: j2, cancel: c2, msg: m2, .. }
            &&& m1 == q1
            &&& m2 == q2
            &&& j1 != j2
            &&& c2 == Some(j1)
            &&& !s2.may_publish(j1)
            &&& s2.finish(j1) == (s2, false)
            &&& s2.may_publish(j2)
            &&& s2.finish(j2).1
            &&& !s2.finish(j2).0.may_publish(j2)
            &&& s2.finish(j2).0.phase() == Phase::Idle
        }),
{
}

/// At most the job started last may publish: whatever happened before, a job
/// that may publish is the in-flight one, and that is the latest started.
pub proof fn law_only_latest_publishes(state: Control, job: JobId)
    requires
        state.wf(),
        state.may_publish(job),
    ensures
        job + 1 == state.jobs_started,
        state.phase() == Phase::Filtering,
        forall|other: JobId| state.may_publish(other) ==> other == job,
{
}

/// Drop while filtering: a move that arrives while a typed-query job is in
/// flight never reaches the handler and changes nothing.
pub proof fn law_drop_while_filtering(state: Control, msg: Message)
    requires
        state.wf(),
        state.phase() == Phase::Filtering,
    ensures
        state.react(SessionEvent::OnMove(msg)) == (state, Action::DropMove { msg_id: msg.id }),
{
}

/// A move that arrives while the session is idle is dispatched unchanged.
pub proof fn law_move_dispatched_when_idle(state: Control, msg: Message)
    requires
        state.wf(),
        state.phase() == Phase::Idle,
    ensures
        state.react(SessionEvent::OnMove(msg)) == (state, Action::DispatchMove { msg }),
{
}

/// Idempotent termination: the first termination stops the session and
/// cancels the in-flight job; a second one finds it stopped, changes nothing
/// and causes no action.
pub proof fn law_idempotent_termination(state: Control)
    requires
        state.wf(),
    ensures
        ({
            let (s1, a1) = state.react(SessionEvent::Terminate);
            let (s2, a2) = s1.react(SessionEvent::Terminate);
            &&& s1.stopped
            &&& s1.phase() == Phase::Stopped
            &&& !state.stopped ==> a1 == Action::Shutdown { cancel: state.in_flight }
            &&& s2 == s1
            &&& a2 == Action::Ignored
            &&& forall|job: JobId| !s1.may_publish(job)
        }),
{
}

/// A stopped session stays stopped and silent whatever it is handed.
pub proof fn law_stopped_is_terminal(state: Control, events: Seq<SessionEvent>)
    requires
        state.stopped,
    ensures
        state.after(events) == state,
        state.trace(events) == Seq::<Action>::empty(),
{
}

/// Forerunner fallback: when the forerunner misses its deadline or fails,
/// the scale stays unknown, nothing is published for it, and the next typed
/// query starts at once with the streamed strategy.
pub proof fn law_forerunner_timeout_fallback(state: Control, outcome: ForerunnerOutcome, q: Message)
    requires
        state.wf(),
        !state.stopped,
        state.scale is Unknown,
        outcome is TimedOut || outcome is Failed,
        state.jobs_started < u64::MAX,
    ensures
        ({
            let (waited, total) = state.adopt(outcome);
            let (next, action) = waited.react(SessionEvent::OnTyped(q));
            &&& waited == state
            &&& total is None
            &&& action matches Action::StartTyped { msg, strategy, .. }
            &&& msg == q
            &&& strategy == Strategy::Streamed
            &&& next.phase() == Phase::Filtering
        }),
{
}

/// The state after a batch is the state after its first part, continued
/// with the rest.
pub proof fn law_after_is_sequential(state: Control, first: Seq<SessionEvent>, rest: Seq<SessionEvent>)
    ensures
        state.after(first + rest) == state.after(first).after(rest),
    decreases first.len(),
{
    if first.len() == 0 {
        assert(first + rest =~= rest);
    } else if state.stopped {
        law_stopped_is_terminal(state, rest);
    } else {
        assert((first + rest).drop_first() =~= first.drop_first() + rest);
        law_after_is_sequential(state.react(first[0]).0, first.drop_first(), rest);
    }
}

/// Arrival order: the actions for a batch are the actions for its first
/// part followed by those for the rest, taken from the state the first part
/// left behind. No event is handled before an earlier one, and a later event
/// never changes what an earlier one caused.
pub proof fn law_events_handled_in_arrival_order(
    state: Control,
    first: Seq<SessionEvent>,
    rest: Seq<SessionEvent>,
)
    ensures
        state.trace(first + rest) == state.trace(first) + state.after(first).trace(rest),
    decreases first.len(),
{
    if first.len() == 0 {
        assert(first + rest =~= rest);
        assert(state.trace(first) + state.trace(rest) =~= state.trace(rest));
    } else if state.stopped {
        law_stopped_is_terminal(state, rest);
        assert(state.trace(first) + state.after(first).trace(rest) =~= Seq::<Action>::empty());
    } else {
        let (next, action) = state.react(first[0]);
        assert((first + rest).drop_first() =~= first.drop_first() + rest);
        law_events_handled_in_arrival_order(next, first.drop_first(), rest);
        assert(seq![action] + (next.trace(first.drop_first()) + next.after(
            first.drop_first(),
        ).trace(rest)) =~= (seq![action] + next.trace(first.drop_first())) + next.after(
            first.drop_first(),
        ).trace(rest));
    }
}

/// One action per handled event: a batch causes as many actions as it has
/// events up to and including the first termination.
pub proof fn law_one_action_per_event(state: Control, events: Seq<SessionEvent>)
    ensures
        state.trace(events).len() <= events.len(),
        (!state.stopped && forall|i: int| 0 <= i < events.len() ==> !(events[i] is Terminate))
            ==> state.trace(events).len() == events.len(),
    decreases events.len(),
{
    if events.len() == 0 || state.stopped {
    } else {
        let next = state.react(events[0]).0;
        law_one_action_per_event(next, events.drop_first());
        if forall|i: int| 0 <= i < events.len() ==> !(events[i] is Terminate) {
            assert(!(events[0] is Terminate));
            assert forall|i: int| 0 <= i < events.drop_first().len() implies !(
            events.drop_first()[i] is Terminate) by {
                assert(events.drop_first()[i] == events[i + 1]);
            }
        }
    }
}

} // verus!
