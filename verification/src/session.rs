//! One subscriber's session, as a state machine.
//!
//! A session binds a WebSocket to the frames of one source. Waiting for
//! frames and talking to the socket is the driver's part; what to do next
//! is decided here. The driver opens the session with the discovery
//! snapshot, then reports each outcome as a [`SessionEvent`] and carries
//! out the [`SessionAction`] it is answered with.

use vstd::prelude::*;
use vstd::string::StringExecFns;

use crate::types::Source;

verus! {

/// Close code sent when the source is unknown or its receiver cannot be created.
pub const CLOSE_SOURCE_NOT_FOUND: u16 = 4404;

/// Close code sent when the source's channel has closed.
pub const CLOSE_SOURCE_LOST: u16 = 4410;

/// The reason that goes with a close code of this server.
pub open spec fn close_reason_spec(code: u16) -> Seq<char> {
    if code == CLOSE_SOURCE_NOT_FOUND {
        "source not found"@
    } else if code == CLOSE_SOURCE_LOST {
        "source lost"@
    } else {
        Seq::empty()
    }
}

/// The reason that goes with a close code of this server; empty for any
/// other code.
pub fn close_reason(code: u16) -> (reason: String)
    ensures
        reason@ == close_reason_spec(code),
{
    if code == CLOSE_SOURCE_NOT_FOUND {
        String::from_str("source not found")
    } else if code == CLOSE_SOURCE_LOST {
        String::from_str("source lost")
    } else {
        String::new()
    }
}

/// The names of `sources` up to `end`, none of which is `name`.
pub open spec fn no_match_before(sources: Seq<Source>, name: Seq<char>, end: int) -> bool {
    forall|k: int| 0 <= k < end ==> (#[trigger] sources[k]).name@ != name
}

/// The position of the first source called `name`, if there is one.
pub open spec fn first_match(sources: Seq<Source>, name: Seq<char>) -> Option<int> {
    if exists|i: int| is_first_match(sources, name, i) {
        Some(choose|i: int| is_first_match(sources, name, i))
    } else {
        None
    }
}

/// `i` is the position of the first source called `name`.
pub open spec fn is_first_match(sources: Seq<Source>, name: Seq<char>, i: int) -> bool {
    0 <= i < sources.len() && sources[i].name@ == name && no_match_before(sources, name, i)
}

/// Looks `name` up in the discovery snapshot and returns the position of
/// the first source of that name.
pub fn find_source(sources: &Vec<Source>, name: &str) -> (found: Option<usize>)
    ensures
        match found {
            Some(i) => is_first_match(sources@, name@, i as int),
            None => no_match_before(sources@, name@, sources@.len() as int),
        },
        match found {
            Some(i) => first_match(sources@, name@) == Some(i as int),
            None => first_match(sources@, name@).is_none(),
        },
{
    let key = String::from_str(name);
    let mut i: usize = 0;
    while i < sources.len()
        invariant
            i <= sources@.len(),
            key@ == name@,
            no_match_before(sources@, name@, i as int),
        decreases sources@.len() - i,
    {
        if sources[i].name == key {
            proof {
                lemma_first_match_is_unique(sources@, name@, i as int);
            }
            return Some(i);
        }
        i += 1;
    }
    None
}

/// There is at most one first match.
pub proof fn lemma_first_match_is_unique(sources: Seq<Source>, name: Seq<char>, i: int)
    requires
        is_first_match(sources, name, i),
    ensures
        first_match(sources, name) == Some(i),
{
    let j = choose|j: int| is_first_match(sources, name, j);
    if j < i {
        assert(sources[j].name@ != name);
    } else if i < j {
        assert(sources[i].name@ != name);
    }
}

/// What a session is waiting for.
#[derive(Debug, Clone, Copy, PartialEq, Eq, Structural)]
pub enum SessionPhase {
    /// For the registry to hand out the source's receiver.
    Creating,
    /// For the next frame on the channel.
    Receiving,
    /// For the socket to take a frame.
    Sending,
    /// For nothing: the session is over.
    Done,
}

/// What came of waiting on the channel.
#[derive(Debug, Clone, Copy, PartialEq, Eq, Structural)]
pub enum RecvOutcome {
    /// A frame arrived.
    Frame,
    /// The subscriber fell behind and this many frames were skipped.
    Lagged(u64),
    /// Every sender is gone.
    Closed,
}

/// What the driver observed.
#[derive(Debug, Clone, Copy, PartialEq, Eq, Structural)]
pub enum SessionEvent {
    /// The registry handed out a receiver, or failed to create one.
    Created { ok: bool },
    /// Waiting on the channel ended.
    Received(RecvOutcome),
    /// The socket took the frame, or the peer is gone.
    Sent { ok: bool },
}

/// What the driver has to do next.
#[derive(Debug, Clone, Copy, PartialEq, Eq, Structural)]
pub enum SessionAction {
    /// Ask the registry for the receiver of the source at this position of
    /// the snapshot, and report `Created`.
    Create { index: usize },
    /// Subscribe to the receiver, wait for a frame and report `Received`.
    Subscribe,
    /// Wait for the next frame and report `Received`.
    Receive,
    /// Send the frame as one binary message and report `Sent`.
    Forward,
    /// Close the socket with this code and its reason; there is nothing to detach.
    Reject { code: u16 },
    /// Close the socket with this code if there is one, then unsubscribe
    /// and let the registry drop the receiver if no client is left.
    Detach { close: Option<u16> },
    /// Nothing: the session is over.
    Finished,
}

/// Decision state of one subscriber session.
#[derive(Debug, Clone, Copy, PartialEq, Eq, Structural)]
pub struct Session {
    pub phase: SessionPhase,
}

/// A session and the action it answered with.
pub struct SessionStep {
    pub session: Session,
    pub action: SessionAction,
}

impl Session {
    /// Whether the session is counted among its source's clients.
    pub open spec fn attached(self) -> bool {
        self.phase == SessionPhase::Receiving || self.phase == SessionPhase::Sending
    }

    /// How a session for `name` starts, given the discovery snapshot.
    pub open spec fn open_spec(sources: Seq<Source>, name: Seq<char>) -> SessionStep {
        match first_match(sources, name) {
            Some(i) => SessionStep {
                session: Session { phase: SessionPhase::Creating },
                action: SessionAction::Create { index: i as usize },
            },
            None => SessionStep {
                session: Session { phase: SessionPhase::Done },
                action: SessionAction::Reject { code: CLOSE_SOURCE_NOT_FOUND },
            },
        }
    }

    /// The action that asks again for the report the session is waiting for.
    pub open spec fn pending(self) -> SessionAction {
        match self.phase {
            SessionPhase::Receiving => SessionAction::Receive,
            SessionPhase::Sending => SessionAction::Forward,
            _ => SessionAction::Finished,
        }
    }

    /// The whole transition relation. A report the session is not waiting
    /// for changes nothing; it is answered with the pending action, or with
    /// `Finished` where there is none to repeat.
    pub open spec fn step_spec(self, event: SessionEvent) -> SessionStep {
        match (self.phase, event) {
            (SessionPhase::Creating, SessionEvent::Created { ok }) => {
                if ok {
                    SessionStep {
                        session: Session { phase: SessionPhase::Receiving },
                        action: SessionAction::Subscribe,
                    }
                } else {
                    SessionStep {
                        session: Session { phase: SessionPhase::Done },
                        action: SessionAction::Reject { code: CLOSE_SOURCE_NOT_FOUND },
                    }
                }
            },
            (SessionPhase::Receiving, SessionEvent::Received(outcome)) => {
                match outcome {
                    RecvOutcome::Frame => SessionStep {
                        session: Session { phase: SessionPhase::Sending },
                        action: SessionAction::Forward,
                    },
                    RecvOutcome::Lagged(_) => SessionStep {
                        session: self,
                        action: SessionAction::Receive,
                    },
                    RecvOutcome::Closed => SessionStep {
                        session: Session { phase: SessionPhase::Done },
                        action: SessionAction::Detach { close: Some(CLOSE_SOURCE_LOST) },
                    },
                }
            },
            (SessionPhase::Sending, SessionEvent::Sent { ok }) => {
                if ok {
                    SessionStep {
                        session: Session { phase: SessionPhase::Receiving },
                        action: SessionAction::Receive,
                    }
                } else {
                    SessionStep {
                        session: Session { phase: SessionPhase::Done },
                        action: SessionAction::Detach { close: None },
                    }
                }
            },
            _ => SessionStep { session: self, action: self.pending() },
        }
    }

    /// Opens a session for the source called `name`: if the snapshot knows
    /// the source, its receiver is asked for; if not, the socket is closed
    /// as "source not found" and nothing else happens.
    pub fn open(sources: &Vec<Source>, name: &str) -> (opened: (Session, SessionAction))
        ensures
            opened.0 == Self::open_spec(sources@, name@).session,
            opened.1 == Self::open_spec(sources@, name@).action,
    {
        match find_source(sources, name) {
            Some(index) => (
                Session { phase: SessionPhase::Creating },
                SessionAction::Create { index },
            ),
            None => (
                Session { phase: SessionPhase::Done },
                SessionAction::Reject { code: CLOSE_SOURCE_NOT_FOUND },
            ),
        }
    }

    /// Whether the session is over.
    pub fn is_done(&self) -> (done: bool)
        ensures
            done == (self.phase == SessionPhase::Done),
    {
        self.phase == SessionPhase::Done
    }

    /// Takes one report from the driver and answers with the next action.
    pub fn step(&mut self, event: SessionEvent) -> (action: SessionAction)
        ensures
            *final(self) == old(self).step_spec(event).session,
            action == old(self).step_spec(event).action,
    {
        match (self.phase, event) {
            (SessionPhase::Creating, SessionEvent::Created { ok }) => {
                if ok {
                    self.phase = SessionPhase::Receiving;
                    SessionAction::Subscribe
                } else {
                    self.phase = SessionPhase::Done;
                    SessionAction::Reject { code: CLOSE_SOURCE_NOT_FOUND }
                }
            },
            (SessionPhase::Receiving, SessionEvent::Received(outcome)) => {
                match outcome {
                    RecvOutcome::Frame => {
                        self.phase = SessionPhase::Sending;
                        SessionAction::Forward
                    },
                    RecvOutcome::Lagged(_) => SessionAction::Receive,
                    RecvOutcome::Closed => {
                        self.phase = SessionPhase::Done;
                        SessionAction::Detach { close: Some(CLOSE_SOURCE_LOST) }
                    },
                }
            },
            (SessionPhase::Sending, SessionEvent::Sent { ok }) => {
                if ok {
                    self.phase = SessionPhase::Receiving;
                    SessionAction::Receive
                } else {
                    self.phase = SessionPhase::Done;
                    SessionAction::Detach { close: None }
                }
            },
            (SessionPhase::Receiving, _) => SessionAction::Receive,
            (SessionPhase::Sending, _) => SessionAction::Forward,
            (_, _) => SessionAction::Finished,
        }
    }
}

/// What a session did over a sequence of reports.
pub struct SessionRun {
    /// The session after the last report.
    pub session: Session,
    /// The actions answered, one per report.
    pub actions: Seq<SessionAction>,
    /// How often the driver was told to subscribe.
    pub subscribed: nat,
    /// How often the driver was told to detach.
    pub detached: nat,
    /// Frames the driver was told to forward.
    pub forwarded: nat,
}

impl Session {
    /// The session and the tallies after `events`, taken in order.
    pub open spec fn run(self, events: Seq<SessionEvent>) -> SessionRun
        decreases events.len(),
    {
        if events.len() == 0 {
            SessionRun {
                session: self,
                actions: Seq::empty(),
                subscribed: 0,
                detached: 0,
                forwarded: 0,
            }
        } else {
            let before = self.run(events.drop_last());
            let out = before.session.step_spec(events.last());
            SessionRun {
                session: out.session,
                actions: before.actions.push(out.action),
                subscribed: before.subscribed + (if out.action is Subscribe {
                    1nat
                } else {
                    0nat
                }),
                detached: before.detached + (if out.action is Detach {
                    1nat
                } else {
                    0nat
                }),
                forwarded: before.forwarded + (if before.session.phase == SessionPhase::Receiving
                    && out.action is Forward {
                    1nat
                } else {
                    0nat
                }),
            }
        }
    }
}

/// Client count discipline: a session that starts unattached subscribes at
/// most once, and has detached exactly as often as it has subscribed once
/// it is no longer attached. So every session adds one to its source's
/// client count while it lives and nothing after.
pub proof fn lemma_session_detaches_what_it_attached(session: Session, events: Seq<SessionEvent>)
    requires
        !session.attached(),
    ensures
        ({
            let run = session.run(events);
            &&& run.subscribed <= 1
            &&& run.subscribed == run.detached + (if run.session.attached() {
                1nat
            } else {
                0nat
            })
            &&& run.session.phase == SessionPhase::Creating ==> run.subscribed == 0
                && session.phase == SessionPhase::Creating
            &&& run.actions.len() == events.len()
        }),
    decreases events.len(),
{
    if events.len() > 0 {
        lemma_session_detaches_what_it_attached(session, events.drop_last());
    }
}

/// An unknown source is turned away: the session is over as it opens, the
/// socket is closed as "source not found", and whatever is reported later
/// neither creates a receiver nor subscribes.
pub proof fn lemma_unknown_source_is_rejected(
    sources: Seq<Source>,
    name: Seq<char>,
    events: Seq<SessionEvent>,
)
    requires
        no_match_before(sources, name, sources.len() as int),
    ensures
        Session::open_spec(sources, name).action == (SessionAction::Reject {
            code: CLOSE_SOURCE_NOT_FOUND,
        }),
        close_reason_spec(CLOSE_SOURCE_NOT_FOUND) == "source not found"@,
        ({
            let run = Session::open_spec(sources, name).session.run(events);
            &&& run.session.phase == SessionPhase::Done
            &&& run.subscribed == 0
            &&& run.detached == 0
            &&& forall|i: int| 0 <= i < run.actions.len() ==> run.actions[i] == SessionAction::Finished
        }),
    decreases events.len(),
{
    assert(first_match(sources, name).is_none()) by {
        if exists|i: int| is_first_match(sources, name, i) {
            let i = choose|i: int| is_first_match(sources, name, i);
            assert(sources[i].name@ != name);
        }
    }
    if events.len() > 0 {
        lemma_unknown_source_is_rejected(sources, name, events.drop_last());
    }
}

/// A lost source ends the session: when the channel is found closed, the
/// socket is closed as "source lost" and the session detaches.
pub proof fn lemma_lost_source_closes_session(session: Session)
    requires
        session.phase == SessionPhase::Receiving,
    ensures
        session.step_spec(SessionEvent::Received(RecvOutcome::Closed)).action == (
        SessionAction::Detach { close: Some(CLOSE_SOURCE_LOST) }),
        session.step_spec(SessionEvent::Received(RecvOutcome::Closed)).session.phase
            == SessionPhase::Done,
        close_reason_spec(CLOSE_SOURCE_LOST) == "source lost"@,
{
}

/// One message per frame: a session that waits for a frame tells its driver
/// to forward exactly when a frame is reported, and waits for the socket to
/// take it before it asks for the next. So the messages a session sends are
/// the frames its receiver yields, each once and in their order. Which
/// frames a receiver yields is the channel's business.
pub proof fn lemma_session_forwards_each_frame(session: Session, event: SessionEvent)
    requires
        session.phase == SessionPhase::Receiving,
    ensures
        session.step_spec(event).action == SessionAction::Forward <==> event
            == SessionEvent::Received(RecvOutcome::Frame),
        session.step_spec(event).action == SessionAction::Forward ==> session.step_spec(
            event,
        ).session.phase == SessionPhase::Sending,
        (Session { phase: SessionPhase::Sending }).step_spec(SessionEvent::Sent { ok: true })
            == (SessionStep {
            session: Session { phase: SessionPhase::Receiving },
            action: SessionAction::Receive,
        }),
{
}

/// Lag tolerance: a subscriber that fell behind stays connected; the
/// skipped frames are passed over and the session waits for the next one.
pub proof fn lemma_lag_keeps_session(session: Session, skipped: u64)
    requires
        session.phase == SessionPhase::Receiving,
    ensures
        session.step_spec(SessionEvent::Received(RecvOutcome::Lagged(skipped))).session == session,
        session.step_spec(SessionEvent::Received(RecvOutcome::Lagged(skipped))).action
            == SessionAction::Receive,
{
}

} // verus!
