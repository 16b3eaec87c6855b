//! The rules of a session on the local socket, and what the listener keeps
//! about its sessions.

use crate::ipc::structs::{
    CloseCodes, CloseMessage, HandshakeMessageView, IpcCommand, IpcCommandView, IpcFrame,
    IpcFrameView, IpcMessage, IpcMessageView,
};
use crate::ipc::wire::DecodeError;
use crate::json::clone_value;
use crate::decimal::{decimal, to_decimal};
use crate::structs::opt_text;
use std::collections::HashMap;
use vstd::prelude::*;
use vstd::string::StringExecFns;

verus! {

broadcast use vstd::std_specs::hash::group_hash_axioms;

/// Where a session stands. `Closed` is final.
#[derive(Debug, Clone, Copy, PartialEq, Eq, Structural)]
pub enum SessionState {
    AwaitingHandshake,
    Active,
    Closed,
}

/// Why a session was ended.
#[derive(Debug, Clone, Copy, PartialEq, Eq, Structural)]
pub enum SessionError {
    /// A second handshake after an accepted one.
    HandshakeTwice,
    /// A handshake for a protocol version other than 1.
    InvalidVersion(i32),
    /// A handshake with an empty client id.
    InvalidClientID,
    /// An activity frame before any accepted handshake.
    FrameBeforeHandshake,
    /// What arrived could not be decoded.
    Decode(DecodeError),
    /// Reading from or writing to the connection failed.
    Io,
}

/// How a session goes on after an event.
#[derive(Debug, Clone, Copy, PartialEq, Eq, Structural)]
pub enum SessionOutcome {
    /// The session stays open.
    Continue,
    /// The session is over, in good order.
    Closed,
    /// The session is over because of a fault.
    Failed(SessionError),
}

/// What happens to a session.
#[derive(Debug, PartialEq, Eq)]
pub enum SessionEvent {
    /// A message arrived on the connection.
    Received(IpcMessage),
    /// What arrived on the connection could not be decoded.
    Undecodable(DecodeError),
    /// The relay sent a command for this session.
    Command(IpcCommand),
    /// Reading from or writing to the connection failed.
    IoFailed,
}

/// What a [`SessionEvent`] stands for in contracts: the same value with its
/// strings and lists as sequences.
pub enum SessionEventView {
    Received(IpcMessageView),
    Undecodable(DecodeError),
    Command(IpcCommandView),
    IoFailed,
}

impl View for SessionEvent {
    type V = SessionEventView;

    open spec fn view(&self) -> SessionEventView {
        match self {
            SessionEvent::Received(m) => SessionEventView::Received(m@),
            SessionEvent::Undecodable(e) => SessionEventView::Undecodable(*e),
            SessionEvent::Command(c) => SessionEventView::Command(c@),
            SessionEvent::IoFailed => SessionEventView::IoFailed,
        }
    }
}

/// The view of an optional message.
pub open spec fn opt_message_view(o: Option<IpcMessage>) -> Option<IpcMessageView> {
    match o {
        Some(m) => Some(m@),
        None => None,
    }
}

/// What a session's handler does after an event: first write `reply` to
/// the connection, then hand `forward` upward with the session's id, then
/// go on or stop as `outcome` says.
#[derive(Debug, PartialEq, Eq)]
pub struct SessionStep {
    pub reply: Option<IpcMessage>,
    pub forward: Option<IpcMessage>,
    pub outcome: SessionOutcome,
}

/// What a [`SessionStep`] stands for in contracts: the same value with its
/// strings and lists as sequences.
pub struct SessionStepView {
    pub reply: Option<IpcMessageView>,
    pub forward: Option<IpcMessageView>,
    pub outcome: SessionOutcome,
}

impl View for SessionStep {
    type V = SessionStepView;

    open spec fn view(&self) -> SessionStepView {
        SessionStepView {
            reply: opt_message_view(self.reply),
            forward: opt_message_view(self.forward),
            outcome: self.outcome,
        }
    }
}

/// One connection on the local socket.
#[derive(Debug, PartialEq, Eq)]
pub struct Session {
    socket_id: usize,
    state: SessionState,
    client_identity: Option<String>,
}

/// What a [`Session`] stands for in contracts: the same value with its
/// strings and lists as sequences.
pub struct SessionView {
    pub socket_id: usize,
    pub state: SessionState,
    pub client_identity: Option<Seq<char>>,
}

impl View for Session {
    type V = SessionView;

    closed spec fn view(&self) -> SessionView {
        SessionView {
            socket_id: self.socket_id,
            state: self.state,
            client_identity: opt_text(self.client_identity),
        }
    }
}

impl SessionView {
    /// A session that has just been accepted.
    pub open spec fn fresh(socket_id: usize) -> SessionView {
        SessionView { socket_id, state: SessionState::AwaitingHandshake, client_identity: None }
    }

    /// Whether a handshake has been accepted.
    pub open spec fn handshake_done(self) -> bool {
        self.client_identity is Some
    }

    /// What holds of every session: the client identity is known exactly
    /// from the accepted handshake on, it is never empty, and a session
    /// is active only after an accepted handshake.
    pub open spec fn well_formed(self) -> bool {
        &&& self.state is AwaitingHandshake ==> self.client_identity is None
        &&& self.state is Active ==> self.client_identity is Some
        &&& self.client_identity matches Some(id) ==> id.len() > 0
    }

    /// The same session, closed.
    pub open spec fn closed(self) -> SessionView {
        SessionView { state: SessionState::Closed, ..self }
    }
}

impl SessionStepView {
    /// Nothing to write, nothing to hand on.
    pub open spec fn silent(outcome: SessionOutcome) -> SessionStepView {
        SessionStepView { reply: None, forward: None, outcome }
    }
}

/// The frame that acknowledges an activity frame: the command
/// `SET_ACTIVITY` and the nonce of the frame it answers, nothing else.
pub open spec fn acknowledgement(nonce: Seq<char>) -> IpcFrameView {
    IpcFrameView { args: None, data: None, cmd: "SET_ACTIVITY"@, evt: None, nonce }
}

/// What a message from the connection does to an open session.
pub open spec fn on_message(session: SessionView, message: IpcMessageView) -> (
    SessionView,
    SessionStepView,
) {
    match message {
        IpcMessageView::Handshake(handshake) => {
            if session.state is Active {
                (
                    session.closed(),
                    SessionStepView::silent(SessionOutcome::Failed(SessionError::HandshakeTwice)),
                )
            } else if handshake.version != 1 {
                (
                    session.closed(),
                    SessionStepView {
                        reply: Some(
                            IpcMessageView::Close(CloseMessage::bare(CloseCodes::InvalidVersion)),
                        ),
                        forward: None,
                        outcome: SessionOutcome::Failed(
                            SessionError::InvalidVersion(handshake.version),
                        ),
                    },
                )
            } else if handshake.client_id.len() == 0 {
                (
                    session.closed(),
                    SessionStepView {
                        reply: Some(
                            IpcMessageView::Close(CloseMessage::bare(CloseCodes::InvalidClientID)),
                        ),
                        forward: None,
                        outcome: SessionOutcome::Failed(SessionError::InvalidClientID),
                    },
                )
            } else {
                (
                    SessionView {
                        state: SessionState::Active,
                        client_identity: Some(handshake.client_id),
                        ..session
                    },
                    SessionStepView {
                        reply: None,
                        forward: Some(message),
                        outcome: SessionOutcome::Continue,
                    },
                )
            }
        },
        IpcMessageView::Frame(frame) => {
            if session.state is Active {
                (
                    session,
                    SessionStepView {
                        reply: Some(IpcMessageView::Frame(acknowledgement(frame.nonce))),
                        forward: Some(message),
                        outcome: SessionOutcome::Continue,
                    },
                )
            } else {
                (
                    session.closed(),
                    SessionStepView::silent(
                        SessionOutcome::Failed(SessionError::FrameBeforeHandshake),
                    ),
                )
            }
        },
        IpcMessageView::Close(_) => (
            session.closed(),
            SessionStepView {
                reply: None,
                forward: Some(message),
                outcome: SessionOutcome::Closed,
            },
        ),
        IpcMessageView::Ping(payload) => (
            session,
            SessionStepView {
                reply: Some(IpcMessageView::Pong(payload)),
                forward: Some(message),
                outcome: SessionOutcome::Continue,
            },
        ),
        IpcMessageView::Pong(_) => (
            session,
            SessionStepView {
                reply: None,
                forward: Some(message),
                outcome: SessionOutcome::Continue,
            },
        ),
    }
}

/// What a command from the relay does to an open session.
pub open spec fn on_command(session: SessionView, command: IpcCommandView) -> (
    SessionView,
    SessionStepView,
) {
    match command {
        IpcCommandView::Frame(_) => (
            session,
            SessionStepView {
                reply: Some(command.message()),
                forward: None,
                outcome: SessionOutcome::Continue,
            },
        ),
        IpcCommandView::Close => (
            session.closed(),
            SessionStepView {
                reply: Some(command.message()),
                forward: None,
                outcome: SessionOutcome::Closed,
            },
        ),
    }
}

/// The session after an event, and what its handler does about the event.
/// A closed session takes no part in anything: whatever happens, it stays
/// closed, writes nothing and hands nothing on.
pub open spec fn session_step(session: SessionView, event: SessionEventView) -> (
    SessionView,
    SessionStepView,
) {
    if session.state is Closed {
        (session, SessionStepView::silent(SessionOutcome::Closed))
    } else {
        match event {
            SessionEventView::Received(message) => on_message(session, message),
            SessionEventView::Undecodable(e) => (
                session.closed(),
                SessionStepView::silent(SessionOutcome::Failed(SessionError::Decode(e))),
            ),
            SessionEventView::Command(command) => on_command(session, command),
            SessionEventView::IoFailed => (
                session.closed(),
                SessionStepView::silent(SessionOutcome::Failed(SessionError::Io)),
            ),
        }
    }
}

/// The session and what is left of a step whose reply could not be
/// written to the connection. If the session was to go on, it ends as
/// after any failure of the connection, and nothing is handed on. If the
/// session was over anyway, the reply was its last word and is given up.
pub open spec fn reply_lost(session: SessionView, step: SessionStepView) -> (
    SessionView,
    SessionStepView,
) {
    if step.outcome is Continue {
        (
            session.closed(),
            SessionStepView::silent(SessionOutcome::Failed(SessionError::Io)),
        )
    } else {
        (session, SessionStepView { reply: None, ..step })
    }
}

impl Session {
    #[verifier::type_invariant]
    spec fn identity_follows_state(&self) -> bool {
        self@.well_formed()
    }

    /// A session for a connection that has just been accepted.
    pub fn new(socket_id: usize) -> (session: Session)
        ensures
            session@ == SessionView::fresh(socket_id),
            session@.well_formed(),
    {
        Session { socket_id, state: SessionState::AwaitingHandshake, client_identity: None }
    }

    /// The id that the listener gave the session.
    pub fn socket_id(&self) -> (id: usize)
        ensures
            id == self@.socket_id,
    {
        self.socket_id
    }

    /// Where the session stands.
    pub fn state(&self) -> (state: SessionState)
        ensures
            state == self@.state,
    {
        self.state
    }

    /// Whether a handshake has been accepted.
    pub fn handshake_done(&self) -> (done: bool)
        ensures
            done == self@.handshake_done(),
    {
        self.client_identity.is_some()
    }

    /// The client id of the accepted handshake, if there was one.
    pub fn client_identity(&self) -> (identity: &Option<String>)
        ensures
            opt_text(*identity) == self@.client_identity,
            self@.well_formed(),
    {
        proof {
            use_type_invariant(self);
        }
        &self.client_identity
    }

    /// Ends the session and says why.
    fn fail(&mut self, error: SessionError) -> (step: SessionStep)
        ensures
            final(self)@ == old(self)@.closed(),
            step@ == SessionStepView::silent(SessionOutcome::Failed(error)),
    {
        proof {
            use_type_invariant(&*self);
        }
        self.state = SessionState::Closed;
        SessionStep { reply: None, forward: None, outcome: SessionOutcome::Failed(error) }
    }

    /// Ends the session with a close of the given code as its last word.
    fn refuse(&mut self, code: CloseCodes, error: SessionError) -> (step: SessionStep)
        ensures
            final(self)@ == old(self)@.closed(),
            step@ == (SessionStepView {
                reply: Some(IpcMessageView::Close(CloseMessage::bare(code))),
                forward: None,
                outcome: SessionOutcome::Failed(error),
            }),
    {
        proof {
            use_type_invariant(&*self);
        }
        self.state = SessionState::Closed;
        SessionStep {
            reply: Some(IpcMessage::Close(CloseMessage::with_code(code))),
            forward: None,
            outcome: SessionOutcome::Failed(error),
        }
    }

    /// Takes a message from the connection into an open session.
    fn receive(&mut self, message: IpcMessage) -> (step: SessionStep)
        requires
            !(old(self)@.state is Closed),
        ensures
            (final(self)@, step@) == on_message(old(self)@, message@),
    {
        proof {
            use_type_invariant(&*self);
        }
        match message {
            IpcMessage::Handshake(handshake) => {
                if self.state == SessionState::Active {
                    self.fail(SessionError::HandshakeTwice)
                } else if handshake.version != 1 {
                    self.refuse(
                        CloseCodes::InvalidVersion,
                        SessionError::InvalidVersion(handshake.version),
                    )
                } else if handshake.client_id.as_str().is_empty() {
                    self.refuse(CloseCodes::InvalidClientID, SessionError::InvalidClientID)
                } else {
                    *self = Session {
                        socket_id: self.socket_id,
                        state: SessionState::Active,
                        client_identity: Some(handshake.client_id.clone()),
                    };
                    SessionStep {
                        reply: None,
                        forward: Some(IpcMessage::Handshake(handshake)),
                        outcome: SessionOutcome::Continue,
                    }
                }
            },
            IpcMessage::Frame(frame) => {
                if self.state == SessionState::Active {
                    let acknowledgement = IpcFrame {
                        args: None,
                        data: None,
                        cmd: "SET_ACTIVITY".to_owned(),
                        evt: None,
                        nonce: frame.nonce.clone(),
                    };
                    SessionStep {
                        reply: Some(IpcMessage::Frame(acknowledgement)),
                        forward: Some(IpcMessage::Frame(frame)),
                        outcome: SessionOutcome::Continue,
                    }
                } else {
                    self.fail(SessionError::FrameBeforeHandshake)
                }
            },
            IpcMessage::Close(close) => {
                self.state = SessionState::Closed;
                SessionStep {
                    reply: None,
                    forward: Some(IpcMessage::Close(close)),
                    outcome: SessionOutcome::Closed,
                }
            },
            IpcMessage::Ping(payload) => SessionStep {
                reply: Some(IpcMessage::Pong(clone_value(&payload))),
                forward: Some(IpcMessage::Ping(payload)),
                outcome: SessionOutcome::Continue,
            },
            IpcMessage::Pong(payload) => SessionStep {
                reply: None,
                forward: Some(IpcMessage::Pong(payload)),
                outcome: SessionOutcome::Continue,
            },
        }
    }

    /// Takes a command from the relay into an open session.
    fn obey(&mut self, command: IpcCommand) -> (step: SessionStep)
        requires
            !(old(self)@.state is Closed),
        ensures
            (final(self)@, step@) == on_command(old(self)@, command@),
    {
        proof {
            use_type_invariant(&*self);
        }
        let reply = command.message();
        let outcome = match command {
            IpcCommand::Frame(_) => SessionOutcome::Continue,
            IpcCommand::Close => {
                self.state = SessionState::Closed;
                SessionOutcome::Closed
            },
        };
        SessionStep { reply: Some(reply), forward: None, outcome }
    }

    /// Says what becomes of a step of this session whose reply could not
    /// be written to the connection.
    pub fn reply_lost(&mut self, step: SessionStep) -> (rest: SessionStep)
        ensures
            (final(self)@, rest@) == reply_lost(old(self)@, step@),
            final(self)@.well_formed(),
    {
        proof {
            use_type_invariant(&*self);
        }
        if step.outcome == SessionOutcome::Continue {
            self.fail(SessionError::Io)
        } else {
            SessionStep { reply: None, forward: step.forward, outcome: step.outcome }
        }
    }

    /// Takes one event into the session and says what its handler is to
    /// do: what to write to the connection, what to hand upward, and
    /// whether the session goes on.
    pub fn handle(&mut self, event: SessionEvent) -> (step: SessionStep)
        ensures
            (final(self)@, step@) == session_step(old(self)@, event@),
            old(self)@.well_formed(),
            final(self)@.well_formed(),
    {
        proof {
            use_type_invariant(&*self);
        }
        if self.state == SessionState::Closed {
            return SessionStep { reply: None, forward: None, outcome: SessionOutcome::Closed };
        }
        match event {
            SessionEvent::Received(message) => self.receive(message),
            SessionEvent::Undecodable(e) => self.fail(SessionError::Decode(e)),
            SessionEvent::Command(command) => self.obey(command),
            SessionEvent::IoFailed => self.fail(SessionError::Io),
        }
    }
}

/// The session after a run of events, taken in order.
pub open spec fn session_run(session: SessionView, events: Seq<SessionEventView>) -> SessionView
    decreases events.len(),
{
    if events.len() == 0 {
        session
    } else {
        session_step(session_run(session, events.drop_last()), events.last()).0
    }
}

/// Whether an event is a handshake that an awaiting session accepts:
/// version 1 and a client id that is not empty.
pub open spec fn is_valid_handshake(event: SessionEventView) -> bool {
    event matches SessionEventView::Received(IpcMessageView::Handshake(handshake))
        && handshake.version == 1 && handshake.client_id.len() > 0
}

/// An event leaves a well-formed session well-formed, and never changes
/// its id.
pub proof fn lemma_step_keeps_well_formed(session: SessionView, event: SessionEventView)
    requires
        session.well_formed(),
    ensures
        session_step(session, event).0.well_formed(),
        session_step(session, event).0.socket_id == session.socket_id,
{
}

/// A closed session stays closed: no event changes it, and none makes it
/// write or hand on anything.
pub proof fn lemma_closed_is_final(session: SessionView, event: SessionEventView)
    requires
        session.state is Closed,
    ensures
        session_step(session, event).0 == session,
        session_step(session, event).1 == SessionStepView::silent(SessionOutcome::Closed),
{
}

/// The client identity is set once: an identity that is known is not
/// changed by any event.
pub proof fn lemma_identity_set_once(session: SessionView, event: SessionEventView)
    requires
        session.well_formed(),
        session.client_identity is Some,
    ensures
        session_step(session, event).0.client_identity == session.client_identity,
{
}

/// A session becomes active by a valid handshake and by nothing else.
pub proof fn lemma_active_only_by_handshake(session: SessionView, event: SessionEventView)
    requires
        !(session.state is Active),
        session_step(session, event).0.state is Active,
    ensures
        session.state is AwaitingHandshake,
        is_valid_handshake(event),
{
}

/// Handshake gating, one step: on a session that is not active, an
/// activity frame ends the session; no acknowledgement is written and
/// nothing is handed on.
pub proof fn lemma_frame_before_handshake(session: SessionView, frame: IpcFrameView)
    requires
        !(session.state is Active),
    ensures
        session_step(
            session,
            SessionEventView::Received(IpcMessageView::Frame(frame)),
        ).0.state is Closed,
        session_step(
            session,
            SessionEventView::Received(IpcMessageView::Frame(frame)),
        ).1.reply is None,
        session_step(
            session,
            SessionEventView::Received(IpcMessageView::Frame(frame)),
        ).1.forward is None,
        session.state is AwaitingHandshake ==> session_step(
            session,
            SessionEventView::Received(IpcMessageView::Frame(frame)),
        ).1.outcome == SessionOutcome::Failed(SessionError::FrameBeforeHandshake),
{
}

/// Handshake gating, any history: whatever has happened to a session
/// since it was accepted, as long as no valid handshake was among it, the
/// session is not active, so that an activity frame ends it and is not
/// acknowledged.
pub proof fn lemma_no_handshake_no_acknowledgement(
    socket_id: usize,
    events: Seq<SessionEventView>,
    frame: IpcFrameView,
)
    requires
        forall|i: int| 0 <= i < events.len() ==> !is_valid_handshake(#[trigger] events[i]),
    ensures
        !(session_run(SessionView::fresh(socket_id), events).state is Active),
        session_step(
            session_run(SessionView::fresh(socket_id), events),
            SessionEventView::Received(IpcMessageView::Frame(frame)),
        ).0.state is Closed,
        session_step(
            session_run(SessionView::fresh(socket_id), events),
            SessionEventView::Received(IpcMessageView::Frame(frame)),
        ).1.reply is None,
    decreases events.len(),
{
    if events.len() > 0 {
        let earlier = events.drop_last();
        assert forall|i: int| 0 <= i < earlier.len() implies !is_valid_handshake(
            #[trigger] earlier[i],
        ) by {
            assert(earlier[i] == events[i]);
        }
        lemma_no_handshake_no_acknowledgement(socket_id, earlier, frame);
        assert(!is_valid_handshake(events.last()));
    }
}

/// Double handshake: after two handshakes in a row the session is closed,
/// whatever they say and wherever the session stood. The second is never
/// answered or handed on; where the first was accepted, the second is the
/// fault that ends the session.
pub proof fn lemma_double_handshake(
    session: SessionView,
    first: HandshakeMessageView,
    second: HandshakeMessageView,
)
    ensures
        ({
            let one = session_step(
                session,
                SessionEventView::Received(IpcMessageView::Handshake(first)),
            );
            let two = session_step(
                one.0,
                SessionEventView::Received(IpcMessageView::Handshake(second)),
            );
            &&& two.0.state is Closed
            &&& two.1.reply is None
            &&& two.1.forward is None
            &&& one.1.outcome is Continue ==> two.1.outcome == SessionOutcome::Failed(
                SessionError::HandshakeTwice,
            )
        }),
{
}

/// Handshake validation on a session that awaits its handshake. A version
/// other than 1 is answered with a close of code `InvalidVersion` and ends
/// the session, whatever the client id is. With version 1, an empty
/// client id is answered with a close of code `InvalidClientID` and ends
/// the session. Any other handshake is accepted: the session becomes
/// active under that client id, and the handshake is handed on.
pub proof fn lemma_handshake_validation(session: SessionView, handshake: HandshakeMessageView)
    requires
        session.state is AwaitingHandshake,
    ensures
        ({
            let message = IpcMessageView::Handshake(handshake);
            let (after, step) = session_step(session, SessionEventView::Received(message));
            if handshake.version != 1 {
                &&& after == session.closed()
                &&& step.reply == Some(
                    IpcMessageView::Close(CloseMessage::bare(CloseCodes::InvalidVersion)),
                )
                &&& step.forward is None
                &&& step.outcome == SessionOutcome::Failed(
                    SessionError::InvalidVersion(handshake.version),
                )
            } else if handshake.client_id.len() == 0 {
                &&& after == session.closed()
                &&& step.reply == Some(
                    IpcMessageView::Close(CloseMessage::bare(CloseCodes::InvalidClientID)),
                )
                &&& step.forward is None
                &&& step.outcome == SessionOutcome::Failed(SessionError::InvalidClientID)
            } else {
                &&& after.state is Active
                &&& after.client_identity == Some(handshake.client_id)
                &&& step.reply is None
                &&& step.forward == Some(message)
                &&& step.outcome is Continue
            }
        }),
{
}

/// What the listener keeps once it is bound: the path of its socket, the
/// id that the next session will get, and for each session that is
/// registered the handle through which commands reach it.
///
/// Ids are given out in rising order, starting at 0, and never twice.
#[derive(Debug)]
pub struct IpcServer<H> {
    path: String,
    next_socket_id: usize,
    clients: HashMap<usize, H>,
}

impl<H> IpcServer<H> {
    /// The path of the socket.
    pub closed spec fn path_text(&self) -> Seq<char> {
        self.path@
    }

    /// The id that the next session will get: every id given out so far is
    /// below it.
    pub closed spec fn next_socket_id(&self) -> usize {
        self.next_socket_id
    }

    /// The sessions that are registered, each with its handle.
    pub closed spec fn clients(&self) -> Map<usize, H> {
        self.clients@
    }

    /// Every registered session has an id that was given out. This holds
    /// of every listener.
    pub open spec fn well_formed(&self) -> bool {
        forall|id: usize| self.clients().contains_key(id) ==> id < self.next_socket_id()
    }

    #[verifier::type_invariant]
    spec fn ids_were_given_out(&self) -> bool {
        self.well_formed()
    }

    /// The listener's state right after it has bound to `path`: no session
    /// yet, and 0 as the first id.
    pub fn new(path: String) -> (server: Self)
        ensures
            server.path_text() == path@,
            server.next_socket_id() == 0,
            server.clients() == Map::<usize, H>::empty(),
            server.well_formed(),
    {
        IpcServer { path, next_socket_id: 0, clients: HashMap::new() }
    }

    /// The path of the socket that the listener is bound to.
    pub fn path(&self) -> (path: &String)
        ensures
            path@ == self.path_text(),
    {
        &self.path
    }

    /// Takes in a connection: gives it the next id, registers `handle`
    /// under that id and returns the session, which awaits its handshake.
    ///
    /// Returns `None`, and changes nothing, only where ids have run out.
    pub fn accept(&mut self, handle: H) -> (session: Option<Session>)
        ensures
            old(self).well_formed(),
            final(self).well_formed(),
            final(self).path_text() == old(self).path_text(),
            match session {
                Some(session) => {
                    &&& old(self).next_socket_id() < usize::MAX
                    &&& session@ == SessionView::fresh(old(self).next_socket_id())
                    &&& !old(self).clients().contains_key(session@.socket_id)
                    &&& final(self).next_socket_id() == old(self).next_socket_id() + 1
                    &&& final(self).clients() == old(self).clients().insert(
                        old(self).next_socket_id(),
                        handle,
                    )
                },
                None => {
                    &&& old(self).next_socket_id() == usize::MAX
                    &&& final(self).next_socket_id() == old(self).next_socket_id()
                    &&& final(self).clients() == old(self).clients()
                },
            },
    {
        proof {
            use_type_invariant(&*self);
        }
        if self.next_socket_id == usize::MAX {
            return None;
        }
        let socket_id = self.next_socket_id;
        let mut clients = HashMap::new();
        core::mem::swap(&mut self.clients, &mut clients);
        clients.insert(socket_id, handle);
        self.next_socket_id = socket_id + 1;
        assert forall|id: usize| clients@.contains_key(id) implies id < self.next_socket_id by {
            if id != socket_id {
                assert(old(self).clients().contains_key(id));
            }
        }
        core::mem::swap(&mut self.clients, &mut clients);
        Some(Session::new(socket_id))
    }

    /// The handle of a session, through which a command is sent to it;
    /// `None` for a session that is not registered.
    pub fn sender(&self, socket_id: usize) -> (handle: Option<&H>)
        ensures
            match handle {
                Some(handle) => self.clients().contains_key(socket_id) && *handle
                    == self.clients()[socket_id],
                None => !self.clients().contains_key(socket_id),
            },
    {
        self.clients.get(&socket_id)
    }

    /// Takes a session out of the table, as its handler does when the
    /// session is over, and returns its handle.
    pub fn remove(&mut self, socket_id: usize) -> (handle: Option<H>)
        ensures
            final(self).well_formed(),
            final(self).path_text() == old(self).path_text(),
            final(self).next_socket_id() == old(self).next_socket_id(),
            final(self).clients() == old(self).clients().remove(socket_id),
            match handle {
                Some(handle) => old(self).clients().contains_key(socket_id) && handle == old(
                    self,
                ).clients()[socket_id],
                None => !old(self).clients().contains_key(socket_id),
            },
    {
        proof {
            use_type_invariant(&*self);
        }
        let mut clients = HashMap::new();
        core::mem::swap(&mut self.clients, &mut clients);
        let handle = clients.remove(&socket_id);
        assert forall|id: usize| clients@.contains_key(id) implies id < self.next_socket_id by {
            assert(old(self).clients().contains_key(id));
        }
        core::mem::swap(&mut self.clients, &mut clients);
        handle
    }
}

/// The directory for the socket, given the four variables that may name
/// it: the first that is set, in the order of the parameters.
pub open spec fn first_set(
    xdg_runtime_dir: Option<Seq<char>>,
    tmpdir: Option<Seq<char>>,
    tmp: Option<Seq<char>>,
    temp: Option<Seq<char>>,
) -> Option<Seq<char>> {
    if xdg_runtime_dir is Some {
        xdg_runtime_dir
    } else if tmpdir is Some {
        tmpdir
    } else if tmp is Some {
        tmp
    } else {
        temp
    }
}

/// The directory in which the socket is made: the value of the first that
/// is set among `XDG_RUNTIME_DIR`, `TMPDIR`, `TMP` and `TEMP`, and `/tmp`
/// where none is.
pub fn bind_directory(
    xdg_runtime_dir: Option<String>,
    tmpdir: Option<String>,
    tmp: Option<String>,
    temp: Option<String>,
) -> (directory: String)
    ensures
        directory@ == match first_set(
            opt_text(xdg_runtime_dir),
            opt_text(tmpdir),
            opt_text(tmp),
            opt_text(temp),
        ) {
            Some(value) => value,
            None => "/tmp"@,
        },
{
    if let Some(directory) = xdg_runtime_dir {
        directory
    } else if let Some(directory) = tmpdir {
        directory
    } else if let Some(directory) = tmp {
        directory
    } else if let Some(directory) = temp {
        directory
    } else {
        "/tmp".to_owned()
    }
}

/// How many paths the listener tries.
pub const CANDIDATES: u8 = 10;

/// The path of candidate `index` in `directory`.
pub open spec fn candidate_path_text(directory: Seq<char>, index: u8) -> Seq<char> {
    directory + "/discord-ipc-"@ + decimal(index as nat)
}

/// The path of candidate `index` in `directory`: the directory, then
/// `/discord-ipc-`, then the index in decimal.
pub fn candidate_path(directory: &str, index: u8) -> (path: String)
    ensures
        path@ == candidate_path_text(directory@, index),
{
    let mut path = directory.to_owned();
    path.append("/discord-ipc-");
    let number = to_decimal(index as usize);
    path.append(number.as_str());
    path
}

/// How an attempt to bind to a candidate path ended.
#[derive(Debug, Clone, Copy, PartialEq, Eq, Structural)]
pub enum BindOutcome {
    /// The socket is bound.
    Bound,
    /// The address is in use.
    AddrInUse,
    /// Binding failed for any other reason.
    Failed,
}

/// What the listener does after an attempt to bind.
#[derive(Debug, Clone, Copy, PartialEq, Eq, Structural)]
pub enum BindStep {
    /// Serve on the candidate of this index, which is bound.
    Serve(u8),
    /// Try the candidate of this index next.
    Try(u8),
    /// Give up: every candidate is in use.
    Exhausted,
    /// Give up: binding to the candidate of this index failed.
    Abort(u8),
}

/// What follows from the outcome of binding to candidate `index`. An
/// address in use sends the listener on to the next candidate, until the
/// last; any other failure stops it at once.
pub open spec fn bind_step(index: u8, outcome: BindOutcome) -> BindStep {
    match outcome {
        BindOutcome::Bound => BindStep::Serve(index),
        BindOutcome::AddrInUse => if index + 1 < CANDIDATES {
            BindStep::Try((index + 1) as u8)
        } else {
            BindStep::Exhausted
        },
        BindOutcome::Failed => BindStep::Abort(index),
    }
}

/// Decides what to do after an attempt to bind to candidate `index`.
pub fn next_bind_step(index: u8, outcome: BindOutcome) -> (step: BindStep)
    ensures
        step == bind_step(index, outcome),
{
    match outcome {
        BindOutcome::Bound => BindStep::Serve(index),
        BindOutcome::AddrInUse => if index < CANDIDATES - 1 {
            BindStep::Try(index + 1)
        } else {
            BindStep::Exhausted
        },
        BindOutcome::Failed => BindStep::Abort(index),
    }
}

/// Where the listener ends up when it starts at candidate `index` and
/// binding to candidate `i` ends as `outcomes[i]` says.
pub open spec fn bind_from(outcomes: Seq<BindOutcome>, index: u8) -> BindStep
    recommends
        outcomes.len() == CANDIDATES,
    decreases CANDIDATES - index,
{
    if index >= CANDIDATES {
        BindStep::Exhausted
    } else {
        match bind_step(index, outcomes[index as int]) {
            BindStep::Try(next) => bind_from(outcomes, next),
            step => step,
        }
    }
}

/// Whether every candidate from `from` up to but not including `to` is in
/// use.
pub open spec fn all_in_use(outcomes: Seq<BindOutcome>, from: int, to: int) -> bool {
    forall|j: int| from <= j < to ==> outcomes[j] is AddrInUse
}

/// Probing: the listener serves on the first candidate that is not in
/// use, if binding to it succeeds; it aborts there, if binding fails for
/// another reason; and it is exhausted exactly when all ten are in use.
pub proof fn lemma_bind_from(outcomes: Seq<BindOutcome>, index: u8)
    requires
        outcomes.len() == CANDIDATES,
        index <= CANDIDATES,
    ensures
        match bind_from(outcomes, index) {
            BindStep::Serve(i) => index <= i < CANDIDATES && outcomes[i as int] is Bound
                && all_in_use(outcomes, index as int, i as int),
            BindStep::Abort(i) => index <= i < CANDIDATES && outcomes[i as int] is Failed
                && all_in_use(outcomes, index as int, i as int),
            BindStep::Exhausted => all_in_use(outcomes, index as int, CANDIDATES as int),
            BindStep::Try(_) => false,
        },
    decreases CANDIDATES - index,
{
    if index < CANDIDATES {
        match bind_step(index, outcomes[index as int]) {
            BindStep::Try(next) => {
                lemma_bind_from(outcomes, next);
            },
            _ => {},
        }
    }
}

} // verus!
