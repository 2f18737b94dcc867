//! The session state machine: candidate iteration and the event loop.
//!
//! A session starts in the connecting phase and walks the candidate
//! addresses in order; each successful connection enters the active phase,
//! whose event loop consumes channel events strictly in arrival order.
//! Connection-fatal errors drop back to candidate iteration, local
//! end-of-input finishes the session, a broken channel fails it, and
//! running out of candidates is the fatal exhaustion outcome.  The
//! surrounding process performs the connects, sends and reads these
//! decisions call for, and feeds every outcome back in as an event.

use vstd::prelude::*;

use crate::addr::CandidateAddress;
use crate::errors::ReceiveError;
use crate::errors::ResolutionError;
use crate::errors::SessionError;
use crate::Config;

verus! {

/// One event on the session's single many-producer channel, in arrival
/// order: local input bytes, received network bytes, a task error, or the
/// close signal from local end-of-input.
#[derive(Debug, Clone, PartialEq, Eq)]
pub enum SessionEvent {
    Input(Vec<u8>),
    NetworkData(Vec<u8>),
    Error(SessionError),
    ConnectionClose,
}

/// Where the session stands.
#[derive(Debug, Clone, Copy, PartialEq, Eq, Structural)]
pub enum SessionPhase {
    /// Iterating candidates, next attempt pending.
    Connecting,
    /// One connection established; the event loop is running.
    Active,
    /// Terminated successfully.
    Finished,
    /// Terminated with a fatal error.
    Failed,
}

/// What the surrounding process must do next.
#[derive(Debug, Clone, PartialEq, Eq)]
pub enum Directive {
    /// Attempt a connection (or, in listen mode, bind and accept) on this
    /// candidate.
    TryConnect(CandidateAddress),
    /// Take the next event from the channel and hand it to
    /// [`Session::handle_event`].
    AwaitEvent,
    /// The session ended successfully.
    Finished,
    /// Every candidate failed, or a fatal error ended the session.
    Exhausted,
}

/// The response of the event loop to one event.
#[derive(Debug, Clone, PartialEq, Eq)]
pub enum EventAction {
    /// Forward these local input bytes to the peer.  A failed send must be
    /// fed back as an `Error` event carrying the send error.
    Send(Vec<u8>),
    /// Deliver these received bytes to the local output surface.
    Deliver(Vec<u8>),
    /// Log the error and continue; the connection stays up.
    Log(SessionError),
    /// Tear the current connection down; candidate iteration resumes.
    Reconnect(SessionError),
    /// Tear everything down; the session failed fatally.
    Fail(SessionError),
    /// Close the current connection and finish successfully.
    CloseAndFinish,
}

/// The session orchestrator's state.
pub struct Session {
    /// The immutable configuration, candidates included.
    pub config: Config,
    /// Index of the next candidate to try.  In the active phase the
    /// connection being served is the candidate just before it.
    pub next_candidate: usize,
    /// Where the session stands.
    pub phase: SessionPhase,
}

impl Session {
    /// The ordered candidate addresses.
    pub open spec fn candidates(self) -> Seq<CandidateAddress> {
        self.config.addresses@
    }

    /// Well-formedness: the next-candidate index stays within bounds, and
    /// an active session has a candidate it is serving.
    pub open spec fn wf(self) -> bool {
        &&& self.next_candidate <= self.candidates().len()
        &&& (self.phase is Active ==> 1 <= self.next_candidate)
    }

    /// Index of the candidate the active connection serves.
    pub open spec fn active_index(self) -> int {
        self.next_candidate - 1
    }

    /// Starts a session over the configured candidates.  Zero candidates
    /// is a fatal startup error, reported, never silently returned.
    pub fn new(config: Config) -> (r: Result<Session, SessionError>)
        ensures
            config.addresses@.len() == 0 ==> (r matches Err(e) && e == SessionError::Resolution(
                ResolutionError::NoAddresses,
            )),
            config.addresses@.len() > 0 ==> (r matches Ok(s) && s == (Session {
                config: config,
                next_candidate: 0,
                phase: SessionPhase::Connecting,
            }) && s.wf()),
    {
        if config.addresses.len() == 0 {
            return Err(SessionError::Resolution(ResolutionError::NoAddresses));
        }
        Ok(Session { config, next_candidate: 0, phase: SessionPhase::Connecting })
    }

    /// What to do next in the current phase.
    pub open spec fn spec_next_step(self) -> Directive {
        match self.phase {
            SessionPhase::Connecting => if self.next_candidate < self.candidates().len() {
                Directive::TryConnect(self.candidates()[self.next_candidate as int])
            } else {
                Directive::Exhausted
            },
            SessionPhase::Active => Directive::AwaitEvent,
            SessionPhase::Finished => Directive::Finished,
            SessionPhase::Failed => Directive::Exhausted,
        }
    }

    /// Tells the surrounding process what to do next: try the next
    /// candidate in order, wait for an event, or stop.
    pub fn next_step(&self) -> (d: Directive)
        requires
            self.wf(),
        ensures
            d == self.spec_next_step(),
    {
        match self.phase {
            SessionPhase::Connecting => {
                if self.next_candidate < self.config.addresses.len() {
                    Directive::TryConnect(self.config.addresses[self.next_candidate])
                } else {
                    Directive::Exhausted
                }
            },
            SessionPhase::Active => Directive::AwaitEvent,
            SessionPhase::Finished => Directive::Finished,
            SessionPhase::Failed => Directive::Exhausted,
        }
    }

    /// The state after a successful connect or accept of the pending
    /// candidate: active, serving it, with iteration set to resume at the
    /// following candidate.
    pub open spec fn spec_connect_success(self) -> Session {
        Session {
            config: self.config,
            next_candidate: (self.next_candidate + 1) as usize,
            phase: SessionPhase::Active,
        }
    }

    /// Records that the pending candidate's connect or accept succeeded.
    pub fn on_connect_success(&mut self)
        requires
            old(self).wf(),
            old(self).phase is Connecting,
            old(self).next_candidate < old(self).candidates().len(),
        ensures
            *final(self) == old(self).spec_connect_success(),
            final(self).wf(),
            final(self).phase is Active,
            final(self).active_index() == old(self).next_candidate,
    {
        let n = self.config.addresses.len();
        assert(self.next_candidate < n);
        self.next_candidate = self.next_candidate + 1;
        self.phase = SessionPhase::Active;
    }

    /// The state after the pending candidate's connect or accept failed:
    /// iteration advances past it, and in listen mode — where the one bind
    /// address is the only candidate — the session fails.
    pub open spec fn spec_connect_failure(self) -> Session {
        Session {
            config: self.config,
            next_candidate: (self.next_candidate + 1) as usize,
            phase: if self.config.listen {
                SessionPhase::Failed
            } else {
                SessionPhase::Connecting
            },
        }
    }

    /// Records that the pending candidate's connect or accept failed; the
    /// failure is recovered locally by moving on, never by aborting
    /// candidate iteration.
    pub fn on_connect_failure(&mut self)
        requires
            old(self).wf(),
            old(self).phase is Connecting,
            old(self).next_candidate < old(self).candidates().len(),
        ensures
            *final(self) == old(self).spec_connect_failure(),
            final(self).wf(),
    {
        let n = self.config.addresses.len();
        assert(self.next_candidate < n);
        self.next_candidate = self.next_candidate + 1;
        if self.config.listen {
            self.phase = SessionPhase::Failed;
        }
    }

    /// The state after the current connection is torn down: connect mode
    /// resumes candidate iteration where it stood; listen mode accepts the
    /// next peer on the same bind address when so configured, and else
    /// finishes, having served its one peer.
    pub open spec fn spec_drop_connection(self) -> Session {
        if !self.config.listen {
            Session { config: self.config, next_candidate: self.next_candidate, phase: SessionPhase::Connecting }
        } else if self.config.keep_listening {
            Session { config: self.config, next_candidate: 0, phase: SessionPhase::Connecting }
        } else {
            Session { config: self.config, next_candidate: self.next_candidate, phase: SessionPhase::Finished }
        }
    }

    /// The state after one event is consumed in the active phase.
    pub open spec fn spec_event_transition(self, event: SessionEvent) -> Session {
        match event {
            SessionEvent::Input(_) => self,
            SessionEvent::NetworkData(_) => self,
            SessionEvent::Error(e) => if e.session_fatal() {
                Session { config: self.config, next_candidate: self.next_candidate, phase: SessionPhase::Failed }
            } else if e.connection_fatal() {
                self.spec_drop_connection()
            } else {
                self
            },
            SessionEvent::ConnectionClose => Session {
                config: self.config,
                next_candidate: self.next_candidate,
                phase: SessionPhase::Finished,
            },
        }
    }

    /// The response owed to one event consumed in the active phase.
    pub open spec fn spec_event_action(self, event: SessionEvent) -> EventAction {
        match event {
            SessionEvent::Input(data) => EventAction::Send(data),
            SessionEvent::NetworkData(data) => EventAction::Deliver(data),
            SessionEvent::Error(e) => if e.session_fatal() {
                EventAction::Fail(e)
            } else if e.connection_fatal() {
                EventAction::Reconnect(e)
            } else {
                EventAction::Log(e)
            },
            SessionEvent::ConnectionClose => EventAction::CloseAndFinish,
        }
    }

    /// Consumes one event from the channel, in arrival order, and answers
    /// it: input bytes are forwarded to the peer, network bytes are
    /// delivered locally, a connection-fatal error re-enters candidate
    /// iteration, a channel error fails the session, a benign error is
    /// only logged, and the local close signal finishes the session.  A
    /// send failure must be fed back as an `Error` event carrying the
    /// send error.
    pub fn handle_event(&mut self, event: SessionEvent) -> (a: EventAction)
        requires
            old(self).wf(),
            old(self).phase is Active,
        ensures
            *final(self) == old(self).spec_event_transition(event),
            a == old(self).spec_event_action(event),
            final(self).wf(),
    {
        match event {
            SessionEvent::Input(data) => EventAction::Send(data),
            SessionEvent::NetworkData(data) => EventAction::Deliver(data),
            SessionEvent::Error(e) => {
                if e.is_session_fatal() {
                    self.phase = SessionPhase::Failed;
                    EventAction::Fail(e)
                } else if e.is_connection_fatal() {
                    if !self.config.listen {
                        self.phase = SessionPhase::Connecting;
                    } else if self.config.keep_listening {
                        self.next_candidate = 0;
                        self.phase = SessionPhase::Connecting;
                    } else {
                        self.phase = SessionPhase::Finished;
                    }
                    EventAction::Reconnect(e)
                } else {
                    EventAction::Log(e)
                }
            },
            SessionEvent::ConnectionClose => {
                self.phase = SessionPhase::Finished;
                EventAction::CloseAndFinish
            },
        }
    }
}

/// Wraps one framed-receive outcome as the event the network task emits:
/// received bytes as network data, a failure as an error event carrying
/// it.
pub fn network_event(outcome: Result<Vec<u8>, ReceiveError>) -> (e: SessionEvent)
    ensures
        (outcome matches Ok(d) ==> e == SessionEvent::NetworkData(d)),
        (outcome matches Err(err) ==> e == SessionEvent::Error(SessionError::Receive(err))),
{
    match outcome {
        Ok(data) => SessionEvent::NetworkData(data),
        Err(err) => SessionEvent::Error(SessionError::Receive(err)),
    }
}

/// What a whole run of the event loop does to an active session: the state
/// it reaches and the ordered actions it answers with, consuming events
/// strictly in arrival order until the phase leaves `Active` or the events
/// run out.
pub open spec fn spec_drain(s: Session, events: Seq<SessionEvent>) -> (Session, Seq<EventAction>)
    decreases events.len(),
{
    if events.len() == 0 || !(s.phase is Active) {
        (s, Seq::empty())
    } else {
        let stepped = spec_drain(s.spec_event_transition(events[0]), events.drop_first());
        (stepped.0, seq![s.spec_event_action(events[0])] + stepped.1)
    }
}

/// Arrival-order law: an active event loop answers the first pending event
/// first — its first action is the response to that event, and the rest is
/// the loop run on the remaining events.  No producer's events are
/// reordered past another's, and none is skipped while the session stays
/// active.
pub proof fn lemma_drain_arrival_order(s: Session, events: Seq<SessionEvent>)
    requires
        s.phase is Active,
        events.len() > 0,
    ensures
        spec_drain(s, events).1.len() > 0,
        spec_drain(s, events).1[0] == s.spec_event_action(events[0]),
        spec_drain(s, events).1.drop_first() == spec_drain(
            s.spec_event_transition(events[0]),
            events.drop_first(),
        ).1,
{
    let stepped = spec_drain(s.spec_event_transition(events[0]), events.drop_first());
    assert((seq![s.spec_event_action(events[0])] + stepped.1).drop_first() =~= stepped.1);
}

/// No-starvation law: as long as the session stays active, every pending
/// event is answered by exactly one action — the loop never stops early
/// and never polls one producer to exhaustion while the other waits.
pub proof fn lemma_drain_services_all(s: Session, events: Seq<SessionEvent>)
    ensures
        spec_drain(s, events).1.len() <= events.len(),
        spec_drain(s, events).0.phase is Active && s.phase is Active ==> spec_drain(
            s,
            events,
        ).1.len() == events.len(),
    decreases events.len(),
{
    if events.len() > 0 && s.phase is Active {
        lemma_drain_services_all(s.spec_event_transition(events[0]), events.drop_first());
    }
}

impl Session {
    /// Runs the event loop over a queue of already-arrived events, in
    /// arrival order, answering each consumed event with one action, until
    /// the events run out or the session leaves the active phase.
    pub fn drain_events(&mut self, events: Vec<SessionEvent>) -> (actions: Vec<EventAction>)
        requires
            old(self).wf(),
        ensures
            *final(self) == spec_drain(*old(self), events@).0,
            actions@ == spec_drain(*old(self), events@).1,
            final(self).wf(),
    {
        let mut pending = events;
        let mut actions: Vec<EventAction> = Vec::new();
        proof {
            assert(actions@ + spec_drain(*self, pending@).1 =~= spec_drain(*self, pending@).1);
        }
        while pending.len() > 0 && matches!(self.phase, SessionPhase::Active)
            invariant
                self.wf(),
                spec_drain(*old(self), events@).0 == spec_drain(*self, pending@).0,
                spec_drain(*old(self), events@).1 == actions@ + spec_drain(*self, pending@).1,
            decreases pending@.len(),
        {
            let ghost pre = *self;
            let ghost pre_pending = pending@;
            let ghost pre_actions = actions@;
            let event = pending.remove(0);
            proof {
                assert(pending@ =~= pre_pending.drop_first());
            }
            let action = self.handle_event(event);
            actions.push(action);
            proof {
                let stepped = spec_drain(*self, pending@);
                assert(spec_drain(pre, pre_pending).1 == seq![action] + stepped.1);
                assert(pre_actions + (seq![action] + stepped.1) =~= pre_actions.push(action)
                    + stepped.1);
            }
        }
        proof {
            assert(spec_drain(*self, pending@).1 =~= Seq::<EventAction>::empty());
            assert(actions@ + Seq::<EventAction>::empty() =~= actions@);
        }
        actions
    }
}

} // verus!
