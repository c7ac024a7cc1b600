//! The session state machine: bookkeeping for the in-flight typed-query job,
//! the reaction to each event, and what becomes of finished background work.

use vstd::prelude::*;
use crate::scale::Scale;
use crate::scale::scale_of;
use crate::session::context::SessionContext;
use crate::session::event::InitialJobResult;
use crate::session::event::Message;
use crate::session::event::SessionEvent;
use crate::session::event::SessionId;

verus! {

/// How long, in milliseconds, a session waits for its forerunner.
pub const FORERUNNER_DEADLINE_MS: u64 = 300;

/// Identifier of a typed-query job, unique within its session.
pub type JobId = u64;

/// How a typed-query job is to go through the candidates.
#[derive(Clone, Copy, Debug, PartialEq, Eq, Structural)]
pub enum Strategy {
    /// Rank every candidate in memory.
    Exhaustive,
    /// Stream the candidates and bound the work.
    Streamed,
}

/// The strategy that a scale calls for. An unknown scale is treated as large.
pub open spec fn strategy_of(scale: Scale) -> Strategy {
    match scale {
        Scale::Affordable(_) => Strategy::Exhaustive,
        Scale::Large => Strategy::Streamed,
        Scale::Unknown => Strategy::Streamed,
    }
}

/// Where a session stands.
#[derive(Clone, Copy, Debug, PartialEq, Eq, Structural)]
pub enum Phase {
    /// No typed-query job is in flight.
    Idle,
    /// One typed-query job is in flight.
    Filtering,
    /// The session was terminated.
    Stopped,
}

/// What the runtime has to do after an event.
pub enum Action {
    /// The session is stopped; the event was not processed.
    Ignored,
    /// Start the forerunner and wait for it no longer than the deadline.
    SpawnForerunner { deadline_ms: u64 },
    /// Hand the message to the move handler and await it.
    DispatchMove { msg: Message },
    /// The move arrived while filtering; it is discarded.
    DropMove { msg_id: u64 },
    /// Signal and abort `cancel` if there is one, abandon its completion
    /// signal, then start `job` on `msg` without waiting for it.
    StartTyped { job: JobId, cancel: Option<JobId>, msg: Message, strategy: Strategy },
    /// No job identifier is left; answer the request with an error.
    RejectTyped { msg_id: u64 },
    /// Cancel `cancel` if there is one and leave the event loop.
    Shutdown { cancel: Option<JobId> },
}

/// How the wait for the forerunner ended.
pub enum ForerunnerOutcome {
    /// It reported before the deadline.
    Finished(InitialJobResult),
    /// The deadline passed first.
    TimedOut,
    /// Enumeration failed.
    Failed,
}

/// The bookkeeping of a session as a plain value.
pub struct Control {
    /// Scale adopted from the forerunner.
    pub scale: Scale,
    /// The job whose result may still be published.
    pub in_flight: Option<JobId>,
    /// How many typed-query jobs were started; also the next job identifier.
    pub jobs_started: u64,
    /// Whether the session was terminated.
    pub stopped: bool,
}

impl Control {
    /// A freshly opened session: idle, scale unknown.
    pub open spec fn initial() -> Control {
        Control { scale: Scale::Unknown, in_flight: None, jobs_started: 0, stopped: false }
    }

    /// The in-flight job, if any, is the one started last, and a stopped
    /// session has none.
    pub open spec fn wf(self) -> bool {
        &&& self.in_flight matches Some(job) ==> job + 1 == self.jobs_started
        &&& self.stopped ==> self.in_flight is None
    }

    pub open spec fn phase(self) -> Phase {
        if self.stopped {
            Phase::Stopped
        } else if self.in_flight is Some {
            Phase::Filtering
        } else {
            Phase::Idle
        }
    }

    /// Whether `job` is allowed to send its response.
    pub open spec fn may_publish(self, job: JobId) -> bool {
        !self.stopped && self.in_flight == Some(job)
    }

    /// The session after termination.
    pub open spec fn halted(self) -> Control {
        Control { in_flight: None, stopped: true, ..self }
    }

    /// The next state and the action for one event.
    pub open spec fn react(self, event: SessionEvent) -> (Control, Action) {
        if self.stopped {
            (self, Action::Ignored)
        } else {
            match event {
                SessionEvent::Terminate => (
                    self.halted(),
                    Action::Shutdown { cancel: self.in_flight },
                ),
                SessionEvent::Create => (
                    self,
                    Action::SpawnForerunner { deadline_ms: FORERUNNER_DEADLINE_MS },
                ),
                SessionEvent::OnMove(msg) => if self.in_flight is Some {
                    (self, Action::DropMove { msg_id: msg.id })
                } else {
                    (self, Action::DispatchMove { msg })
                },
                SessionEvent::OnTyped(msg) => if self.jobs_started == u64::MAX {
                    (self, Action::RejectTyped { msg_id: msg.id })
                } else {
                    (
                        Control {
                            in_flight: Some(self.jobs_started),
                            jobs_started: (self.jobs_started + 1) as u64,
                            ..self
                        },
                        Action::StartTyped {
                            job: self.jobs_started,
                            cancel: self.in_flight,
                            msg,
                            strategy: strategy_of(self.scale),
                        },
                    )
                },
            }
        }
    }

    /// The state after `job` reported completion, and whether its response
    /// goes out. Only the in-flight job of a running session publishes.
    pub open spec fn finish(self, job: JobId) -> (Control, bool) {
        if self.may_publish(job) {
            (Control { in_flight: None, ..self }, true)
        } else {
            (self, false)
        }
    }

    /// The state after the wait for the forerunner ended, and the candidate
    /// total to publish. The scale is adopted once; a missed deadline and a
    /// failure leave it as it was.
    pub open spec fn adopt(self, outcome: ForerunnerOutcome) -> (Control, Option<usize>) {
        match outcome {
            ForerunnerOutcome::Finished(result) => if self.stopped {
                (self, None)
            } else if self.scale is Unknown {
                (Control { scale: scale_of(result.total as nat), ..self }, Some(result.total))
            } else {
                (self, Some(result.total))
            },
            ForerunnerOutcome::TimedOut => (self, None),
            ForerunnerOutcome::Failed => (self, None),
        }
    }

    /// The state after handling `events` in order, stopping at termination.
    pub open spec fn after(self, events: Seq<SessionEvent>) -> Control
        decreases events.len(),
    {
        if events.len() == 0 || self.stopped {
            self
        } else {
            self.react(events[0]).0.after(events.drop_first())
        }
    }

    /// The actions for `events`, handled in order until termination.
    pub open spec fn trace(self, events: Seq<SessionEvent>) -> Seq<Action>
        decreases events.len(),
    {
        if events.len() == 0 || self.stopped {
            Seq::empty()
        } else {
            let (next, action) = self.react(events[0]);
            seq![action] + next.trace(events.drop_first())
        }
    }
}

/// One search session: its shared context and the bookkeeping of the event
/// loop.
pub struct Session {
    session_id: SessionId,
    context: SessionContext,
    source_scale: Scale,
    in_flight: Option<JobId>,
    jobs_started: u64,
}

impl Session {
    #[verifier::type_invariant]
    spec fn inv(self) -> bool {
        &&& self.control().wf()
        &&& self.session_id == self.context.id()
    }

    /// The bookkeeping of this session.
    pub closed spec fn control(&self) -> Control {
        Control {
            scale: self.source_scale,
            in_flight: self.in_flight,
            jobs_started: self.jobs_started,
            stopped: !self.context.alive(),
        }
    }

    /// The shared context of this session.
    pub closed spec fn ctx(&self) -> SessionContext {
        self.context
    }

    /// The bookkeeping of this session as a value. It is always well formed.
    pub fn snapshot(&self) -> (control: Control)
        ensures
            control == self.control(),
            control.wf(),
            control.stopped == !self.ctx().alive(),
    {
        proof {
            use_type_invariant(self);
        }
        Control {
            scale: self.source_scale,
            in_flight: self.in_flight,
            jobs_started: self.jobs_started,
            stopped: !self.context.is_alive(),
        }
    }

    /// Opens a session for `msg`: idle, running, scale unknown.
    pub fn new(msg: &Message) -> (session: Session)
        ensures
            session.control() == Control::initial(),
            session.ctx().id() == msg.session_id,
            session.ctx().provider() == msg.provider_id,
            session.ctx().working_dir() == msg.cwd,
            session.ctx().target() == msg.source_fpath,
            session.ctx().width() == msg.display_winwidth,
            session.ctx().cached() is None,
    {
        Session {
            session_id: msg.session_id,
            context: SessionContext::new(msg),
            source_scale: Scale::Unknown,
            in_flight: None,
            jobs_started: 0,
        }
    }

    pub fn session_id(&self) -> (id: SessionId)
        ensures
            id == self.ctx().id(),
    {
        proof {
            use_type_invariant(self);
        }
        self.session_id
    }

    pub fn context(&self) -> (context: &SessionContext)
        ensures
            *context == self.ctx(),
    {
        &self.context
    }

    pub fn provider_id(&self) -> (provider: &String)
        ensures
            *provider == self.ctx().provider(),
    {
        self.context.provider_id()
    }

    pub fn source_scale(&self) -> (scale: Scale)
        ensures
            scale == self.control().scale,
    {
        self.source_scale
    }

    /// The strategy a typed-query job started now would use.
    pub fn strategy(&self) -> (strategy: Strategy)
        ensures
            strategy == strategy_of(self.control().scale),
    {
        match self.source_scale {
            Scale::Affordable(_) => Strategy::Exhaustive,
            Scale::Large => Strategy::Streamed,
            Scale::Unknown => Strategy::Streamed,
        }
    }

    /// Whether the session has not been terminated.
    pub fn is_running(&self) -> (running: bool)
        ensures
            running == !self.control().stopped,
    {
        self.context.is_alive()
    }

    pub fn phase(&self) -> (phase: Phase)
        ensures
            phase == self.control().phase(),
    {
        if !self.context.is_alive() {
            Phase::Stopped
        } else if self.in_flight.is_some() {
            Phase::Filtering
        } else {
            Phase::Idle
        }
    }

    /// The job whose result may still be published.
    pub fn in_flight(&self) -> (job: Option<JobId>)
        ensures
            job == self.control().in_flight,
    {
        self.in_flight
    }

    /// Whether `job` may send its response: it has to be the in-flight job
    /// of a running session.
    pub fn may_publish(&self, job: JobId) -> (allowed: bool)
        ensures
            allowed == self.control().may_publish(job),
    {
        self.context.is_alive() && self.in_flight == Some(job)
    }

    /// Terminates the session: the context is marked, the in-flight job
    /// loses its right to publish. Returns the job to cancel.
    pub fn handle_terminate(&mut self) -> (cancel: Option<JobId>)
        ensures
            final(self).control() == old(self).control().halted(),
            cancel == old(self).control().in_flight,
            final(self).ctx().same_config(&old(self).ctx()),
            final(self).ctx().cached() == old(self).ctx().cached(),
    {
        proof {
            use_type_invariant(&*self);
        }
        let cancel = self.in_flight;
        self.in_flight = None;
        self.context.mark_terminated();
        cancel
    }

    /// Stores the forerunner's candidates unless a list is stored already.
    /// Returns whether `lines` was stored.
    pub fn set_source_list(&mut self, lines: Vec<String>) -> (stored: bool)
        ensures
            stored == (old(self).ctx().cached() is None),
            final(self).ctx().cached() == if stored {
                Some(lines)
            } else {
                old(self).ctx().cached()
            },
            final(self).control() == old(self).control(),
            final(self).ctx().same_config(&old(self).ctx()),
    {
        proof {
            use_type_invariant(&*self);
        }
        self.context.set_once(lines)
    }

    /// Handles one event and says what the runtime has to do.
    pub fn handle_event(&mut self, event: SessionEvent) -> (action: Action)
        ensures
            (final(self).control(), action) == old(self).control().react(event),
            final(self).ctx().same_config(&old(self).ctx()),
            final(self).ctx().cached() == old(self).ctx().cached(),
    {
        proof {
            use_type_invariant(&*self);
        }
        if !self.context.is_alive() {
            return Action::Ignored;
        }
        match event {
            SessionEvent::Terminate => {
                let cancel = self.handle_terminate();
                Action::Shutdown { cancel }
            },
            SessionEvent::Create => Action::SpawnForerunner { deadline_ms: FORERUNNER_DEADLINE_MS },
            SessionEvent::OnMove(msg) => {
                if self.in_flight.is_some() {
                    Action::DropMove { msg_id: msg.id }
                } else {
                    Action::DispatchMove { msg }
                }
            },
            SessionEvent::OnTyped(msg) => {
                if self.jobs_started == u64::MAX {
                    Action::RejectTyped { msg_id: msg.id }
                } else {
                    let job = self.jobs_started;
                    let cancel = self.in_flight;
                    let strategy = self.strategy();
                    self.in_flight = None;
                    self.jobs_started = job + 1;
                    self.in_flight = Some(job);
                    Action::StartTyped { job, cancel, msg, strategy }
                }
            },
        }
    }

    /// Handles `events` in arrival order, one at a time, until the session
    /// is terminated; what follows a termination is abandoned. Returns the
    /// actions in the order of the events that caused them.
    pub fn run(&mut self, events: Vec<SessionEvent>) -> (actions: Vec<Action>)
        ensures
            actions@ == old(self).control().trace(events@),
            final(self).control() == old(self).control().after(events@),
            final(self).ctx().same_config(&old(self).ctx()),
            final(self).ctx().cached() == old(self).ctx().cached(),
    {
        let mut actions: Vec<Action> = Vec::new();
        let ghost start = self.control();
        let ghost all = events@;
        assert(all.skip(0) =~= all);
        for event in it: events
            invariant
                it.seq() == all,
                actions@ + self.control().trace(all.skip(it.index())) == start.trace(all),
                self.control().after(all.skip(it.index())) == start.after(all),
                self.ctx().same_config(&old(self).ctx()),
                self.ctx().cached() == old(self).ctx().cached(),
        {
            let ghost rest = all.skip(it.index());
            let ghost before = self.control();
            assert(rest[0] == event);
            assert(rest.drop_first() =~= all.skip(it.index() + 1));
            if self.is_running() {
                let action = self.handle_event(event);
                actions.push(action);
                assert(actions@ + self.control().trace(rest.drop_first()) =~= (actions@.drop_last()
                    + before.trace(rest)));
            }
        }
        assert(all.skip(all.len() as int).len() == 0);
        assert(actions@ + Seq::<Action>::empty() =~= actions@);
        actions
    }

    /// Records that `job` completed. Returns whether its response goes out;
    /// if so the session is idle again.
    pub fn typed_job_finished(&mut self, job: JobId) -> (publish: bool)
        ensures
            (final(self).control(), publish) == old(self).control().finish(job),
            final(self).ctx() == old(self).ctx(),
    {
        proof {
            use_type_invariant(&*self);
        }
        if self.may_publish(job) {
            self.in_flight = None;
            true
        } else {
            false
        }
    }

    /// Records how the wait for the forerunner ended. A result that came in
    /// time sets the scale, if none was adopted before, and its candidates
    /// are cached unless a list is cached already. Returns the candidate
    /// total to publish.
    pub fn forerunner_outcome(&mut self, outcome: ForerunnerOutcome) -> (total: Option<usize>)
        ensures
            (final(self).control(), total) == old(self).control().adopt(outcome),
            final(self).ctx().same_config(&old(self).ctx()),
            final(self).ctx().cached() == match outcome {
                ForerunnerOutcome::Finished(result) => if !old(self).control().stopped
                    && old(self).ctx().cached() is None {
                    result.lines
                } else {
                    old(self).ctx().cached()
                },
                _ => old(self).ctx().cached(),
            },
    {
        proof {
            use_type_invariant(&*self);
        }
        match outcome {
            ForerunnerOutcome::Finished(result) => {
                if !self.context.is_alive() {
                    return None;
                }
                if let Scale::Unknown = self.source_scale {
                    self.source_scale = Scale::classify(result.total);
                }
                if let Some(lines) = result.lines {
                    self.context.set_once(lines);
                }
                Some(result.total)
            },
            ForerunnerOutcome::TimedOut => None,
            ForerunnerOutcome::Failed => None,
        }
    }

    /// Records a forerunner result that came after its deadline. The scale
    /// stays as it is; the candidates are cached if the session still runs
    /// and nothing is cached yet. Returns whether they were stored.
    pub fn forerunner_finished_late(&mut self, result: InitialJobResult) -> (stored: bool)
        ensures
            final(self).control() == old(self).control(),
            final(self).ctx().same_config(&old(self).ctx()),
            stored == (!old(self).control().stopped && old(self).ctx().cached() is None
                && result.lines is Some),
            final(self).ctx().cached() == if stored {
                result.lines
            } else {
                old(self).ctx().cached()
            },
    {
        proof {
            use_type_invariant(&*self);
        }
        if !self.context.is_alive() {
            return false;
        }
        match result.lines {
            Some(lines) => self.context.set_once(lines),
            None => false,
        }
    }
}

} // verus!
