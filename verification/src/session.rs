//! The session: the state machine of one accepted connection. It does no
//! I/O. The driver tells it what happened on the sockets, and it answers
//! with what to do next.

use vstd::prelude::*;
use crate::codec::{
    encode_method_selection, encode_reply, spec_encode_method_selection, spec_encode_reply,
    BoundAddress,
};
use crate::connect::{spec_target, target, ConnectFailure, Target, TargetView};
use crate::framing::FrameKind;
use crate::negotiation::{handshake, spec_handshake};
use crate::parser::{parse_protocol, spec_parse_protocol, RequestError};
use crate::wire::{AuthMethod, MalformedMessage, ReplyStatus};

verus! {

/// Where a session stands. A session moves along
/// `Init`, `Negotiating`, `AwaitingRequest`, `Connecting`, `Relaying`,
/// `Closed`, or from any of them straight to `Closed`.
#[derive(Clone, Copy, Debug, PartialEq, Eq, Structural)]
pub enum SessionState {
    Init,
    Negotiating,
    AwaitingRequest,
    Connecting,
    Relaying,
    Closed,
}

impl SessionState {
    /// The place of the state in the order in which a session passes
    /// through the states.
    pub open spec fn spec_rank(self) -> nat {
        match self {
            SessionState::Init => 0,
            SessionState::Negotiating => 1,
            SessionState::AwaitingRequest => 2,
            SessionState::Connecting => 3,
            SessionState::Relaying => 4,
            SessionState::Closed => 5,
        }
    }
}

/// One of the two directions in which the relay copies.
#[derive(Clone, Copy, Debug, PartialEq, Eq, Structural)]
pub enum Direction {
    ClientToDestination,
    DestinationToClient,
}

/// Why a session failed.
#[derive(Clone, Copy, Debug, PartialEq, Eq, Structural)]
pub enum SessionError {
    /// The greeting or the request was malformed or cut short.
    Protocol(MalformedMessage),
    /// The request was well-formed but is not served; the client was sent
    /// a reply with this status.
    Unsupported(ReplyStatus),
    /// The destination could not be connected to; the client was sent a
    /// reply with this status.
    Connect(ReplyStatus),
    /// A socket failed, or the driver reported what the session did not
    /// wait for.
    Transport,
}

/// How a session ended.
#[derive(Clone, Copy, Debug, PartialEq, Eq, Structural)]
pub enum Outcome {
    /// The relay ran until both directions had ended.
    Completed,
    /// The client offered no acceptable method and was told so.
    Refused,
    /// The session failed.
    Failed(SessionError),
}

impl Outcome {
    /// What the caller of the session is told. A session whose client
    /// offered no acceptable method has ended as the protocol asks: like a
    /// completed session, it is no error to the caller.
    pub open spec fn spec_result(self) -> Result<(), SessionError> {
        match self {
            Outcome::Completed => Ok(()),
            Outcome::Refused => Ok(()),
            Outcome::Failed(error) => Err(error),
        }
    }

    #[verifier::when_used_as_spec(spec_result)]
    pub fn result(self) -> (result: Result<(), SessionError>)
        ensures
            result == self.spec_result(),
    {
        match self {
            Outcome::Completed => Ok(()),
            Outcome::Refused => Ok(()),
            Outcome::Failed(error) => Err(error),
        }
    }
}

/// An event as a mathematical value.
pub enum EventView {
    Accepted,
    Frame(Seq<u8>),
    EndOfStream,
    Connected(BoundAddress),
    ConnectFailed(ConnectFailure),
    DirectionEnded(Direction),
    TransportFailed,
}

/// What the driver reports to the session.
#[derive(Debug, PartialEq, Eq)]
pub enum Event {
    /// The connection was accepted.
    Accepted,
    /// The bytes of the message that the session asked to receive.
    Frame(Vec<u8>),
    /// The client closed its side before the message was complete.
    EndOfStream,
    /// The connection to the destination stands; this is its local endpoint.
    Connected(BoundAddress),
    /// No connection to the destination could be made.
    ConnectFailed(ConnectFailure),
    /// The source of one direction of the relay ended, or failed.
    DirectionEnded(Direction),
    /// Reading from or writing to a socket failed.
    TransportFailed,
}

impl View for Event {
    type V = EventView;

    open spec fn view(&self) -> EventView {
        match self {
            Event::Accepted => EventView::Accepted,
            Event::Frame(bytes) => EventView::Frame(bytes@),
            Event::EndOfStream => EventView::EndOfStream,
            Event::Connected(bound) => EventView::Connected(*bound),
            Event::ConnectFailed(failure) => EventView::ConnectFailed(*failure),
            Event::DirectionEnded(direction) => EventView::DirectionEnded(*direction),
            Event::TransportFailed => EventView::TransportFailed,
        }
    }
}

/// An action as a mathematical value.
pub enum ActionView {
    Receive(FrameKind),
    SendAndReceive(Seq<u8>, FrameKind),
    Connect(TargetView),
    SendAndRelay(Seq<u8>),
    HalfClose(Direction),
    HalfCloseAndClose(Direction),
    SendAndClose(Seq<u8>, Outcome),
    Close(Outcome),
}

/// What the session asks the driver to do.
#[derive(Debug, PartialEq, Eq)]
pub enum Action {
    /// Read a message of this kind from the client, as a `FrameReader` of
    /// the kind asks for it, then report it as `Frame`; or report
    /// `EndOfStream` where the client closed its side first.
    Receive(FrameKind),
    /// Send the bytes to the client, then go on as for `Receive`.
    SendAndReceive(Vec<u8>, FrameKind),
    /// Open a connection to the destination, then report `Connected` or
    /// `ConnectFailed`.
    Connect(Target),
    /// Send the bytes to the client, then copy in both directions, and
    /// report `DirectionEnded` for each direction when its source ends.
    SendAndRelay(Vec<u8>),
    /// Shut down the writing side that this direction copied to; the other
    /// direction goes on.
    HalfClose(Direction),
    /// Shut down the writing side that this direction copied to, then
    /// release both connections: the session has completed.
    HalfCloseAndClose(Direction),
    /// Send the bytes to the client as the last message, then release
    /// everything.
    SendAndClose(Vec<u8>, Outcome),
    /// Release everything.
    Close(Outcome),
}

impl View for Action {
    type V = ActionView;

    open spec fn view(&self) -> ActionView {
        match self {
            Action::Receive(kind) => ActionView::Receive(*kind),
            Action::SendAndReceive(frame, kind) => ActionView::SendAndReceive(frame@, *kind),
            Action::Connect(target) => ActionView::Connect(target@),
            Action::SendAndRelay(frame) => ActionView::SendAndRelay(frame@),
            Action::HalfClose(direction) => ActionView::HalfClose(*direction),
            Action::HalfCloseAndClose(direction) => ActionView::HalfCloseAndClose(*direction),
            Action::SendAndClose(frame, outcome) => ActionView::SendAndClose(frame@, *outcome),
            Action::Close(outcome) => ActionView::Close(*outcome),
        }
    }
}

impl ActionView {
    /// The action sends the reply to a request: the reply "succeeded" that
    /// opens the relay, or the reply of a failure that closes the session.
    pub open spec fn is_reply(self) -> bool {
        self is SendAndRelay || (self matches ActionView::SendAndClose(_, Outcome::Failed(_)))
    }

    /// The action ends the session.
    pub open spec fn closes(self) -> bool {
        self is Close || self is SendAndClose || self is HalfCloseAndClose
    }

    /// The bytes that the action sends to the client, if it sends any.
    pub open spec fn sent(self) -> Option<Seq<u8>> {
        match self {
            ActionView::SendAndReceive(frame, _) => Some(frame),
            ActionView::SendAndRelay(frame) => Some(frame),
            ActionView::SendAndClose(frame, _) => Some(frame),
            _ => None,
        }
    }
}

/// The session as a mathematical value: its state and, while it relays, the
/// direction that has ended already.
pub struct SessionView {
    pub state: SessionState,
    pub ended: Option<Direction>,
}

/// The methods that this server accepts, in its order of preference.
pub open spec fn spec_server_methods() -> Seq<AuthMethod> {
    seq![AuthMethod::NoAuthenticationRequired]
}

/// A session in the given state, with no direction ended.
pub open spec fn spec_at(state: SessionState) -> SessionView {
    SessionView { state, ended: None }
}

/// The step that answers the client's greeting.
pub open spec fn spec_on_greeting(bytes: Seq<u8>) -> (SessionView, ActionView) {
    match spec_handshake(bytes, spec_server_methods()) {
        Err(error) => (
            spec_at(SessionState::Closed),
            ActionView::Close(Outcome::Failed(SessionError::Protocol(error))),
        ),
        Ok(None) => (
            spec_at(SessionState::Closed),
            ActionView::SendAndClose(spec_encode_method_selection(None), Outcome::Refused),
        ),
        Ok(Some(method)) => (
            spec_at(SessionState::AwaitingRequest),
            ActionView::SendAndReceive(
                spec_encode_method_selection(Some(method)),
                FrameKind::Request,
            ),
        ),
    }
}

/// The step that answers the client's request.
pub open spec fn spec_on_request(bytes: Seq<u8>) -> (SessionView, ActionView) {
    match spec_parse_protocol(bytes) {
        Ok(request) => (spec_at(SessionState::Connecting), ActionView::Connect(spec_target(request))),
        Err(RequestError::Protocol(error)) => (
            spec_at(SessionState::Closed),
            ActionView::Close(Outcome::Failed(SessionError::Protocol(error))),
        ),
        Err(RequestError::Unsupported(status)) => (
            spec_at(SessionState::Closed),
            ActionView::SendAndClose(
                spec_encode_reply(status, None),
                Outcome::Failed(SessionError::Unsupported(status)),
            ),
        ),
    }
}

/// The step that answers the end of one direction of the relay.
pub open spec fn spec_on_direction_ended(ended: Option<Direction>, direction: Direction) -> (
    SessionView,
    ActionView,
) {
    match ended {
        None => (
            SessionView { state: SessionState::Relaying, ended: Some(direction) },
            ActionView::HalfClose(direction),
        ),
        Some(first) => if first == direction {
            spec_fail()
        } else {
            (spec_at(SessionState::Closed), ActionView::HalfCloseAndClose(direction))
        },
    }
}

/// The step that gives the session up: a socket failed, or the event is
/// none that the state waits for.
pub open spec fn spec_fail() -> (SessionView, ActionView) {
    (spec_at(SessionState::Closed), ActionView::Close(Outcome::Failed(SessionError::Transport)))
}

/// The state machine: the state after the event, and the action that the
/// session answers with.
pub open spec fn spec_step(session: SessionView, event: EventView) -> (SessionView, ActionView) {
    match session.state {
        SessionState::Init => match event {
            EventView::Accepted => (
                spec_at(SessionState::Negotiating),
                ActionView::Receive(FrameKind::Greeting),
            ),
            _ => spec_fail(),
        },
        SessionState::Negotiating => match event {
            EventView::Frame(bytes) => spec_on_greeting(bytes),
            EventView::EndOfStream => (
                spec_at(SessionState::Closed),
                ActionView::Close(
                    Outcome::Failed(SessionError::Protocol(MalformedMessage::Length)),
                ),
            ),
            _ => spec_fail(),
        },
        SessionState::AwaitingRequest => match event {
            EventView::Frame(bytes) => spec_on_request(bytes),
            EventView::EndOfStream => (
                spec_at(SessionState::Closed),
                ActionView::Close(
                    Outcome::Failed(SessionError::Protocol(MalformedMessage::Length)),
                ),
            ),
            _ => spec_fail(),
        },
        SessionState::Connecting => match event {
            EventView::Connected(bound) => (
                spec_at(SessionState::Relaying),
                ActionView::SendAndRelay(spec_encode_reply(ReplyStatus::Succeeded, Some(bound))),
            ),
            EventView::ConnectFailed(failure) => (
                spec_at(SessionState::Closed),
                ActionView::SendAndClose(
                    spec_encode_reply(failure.spec_reply_status(), None),
                    Outcome::Failed(SessionError::Connect(failure.spec_reply_status())),
                ),
            ),
            _ => spec_fail(),
        },
        SessionState::Relaying => match event {
            EventView::DirectionEnded(direction) => spec_on_direction_ended(
                session.ended,
                direction,
            ),
            _ => spec_fail(),
        },
        SessionState::Closed => spec_fail(),
    }
}

/// The state after a run of events, one after another.
pub open spec fn spec_run(session: SessionView, events: Seq<EventView>) -> SessionView
    decreases events.len(),
{
    if events.len() == 0 {
        session
    } else {
        spec_run(spec_step(session, events[0]).0, events.drop_first())
    }
}

/// The actions that answer a run of events, one for each event.
pub open spec fn spec_actions(session: SessionView, events: Seq<EventView>) -> Seq<ActionView>
    decreases events.len(),
{
    if events.len() == 0 {
        Seq::<ActionView>::empty()
    } else {
        seq![spec_step(session, events[0]).1] + spec_actions(
            spec_step(session, events[0]).0,
            events.drop_first(),
        )
    }
}

/// One accepted connection.
#[derive(Clone, Copy, Debug, PartialEq, Eq)]
pub struct Session {
    state: SessionState,
    ended: Option<Direction>,
}

impl View for Session {
    type V = SessionView;

    closed spec fn view(&self) -> SessionView {
        SessionView { state: self.state, ended: self.ended }
    }
}

impl Session {
    /// The session of a connection that was just accepted.
    pub fn new() -> (session: Session)
        ensures
            session@ == spec_at(SessionState::Init),
    {
        Session { state: SessionState::Init, ended: None }
    }

    pub fn state(&self) -> (state: SessionState)
        ensures
            state == self@.state,
    {
        self.state
    }

    fn fail(&mut self) -> (action: Action)
        ensures
            (final(self)@, action@) == spec_fail(),
    {
        self.state = SessionState::Closed;
        self.ended = None;
        Action::Close(Outcome::Failed(SessionError::Transport))
    }

    fn truncated(&mut self) -> (action: Action)
        ensures
            final(self)@ == spec_at(SessionState::Closed),
            action@ == ActionView::Close(
                Outcome::Failed(SessionError::Protocol(MalformedMessage::Length)),
            ),
    {
        self.state = SessionState::Closed;
        self.ended = None;
        Action::Close(Outcome::Failed(SessionError::Protocol(MalformedMessage::Length)))
    }

    fn on_greeting(&mut self, bytes: &[u8]) -> (action: Action)
        ensures
            (final(self)@, action@) == spec_on_greeting(bytes@),
    {
        let supported: [AuthMethod; 1] = [AuthMethod::NoAuthenticationRequired];
        assert(supported@ =~= spec_server_methods());
        self.ended = None;
        match handshake(bytes, supported.as_slice()) {
            Err(error) => {
                self.state = SessionState::Closed;
                Action::Close(Outcome::Failed(SessionError::Protocol(error)))
            },
            Ok(None) => {
                self.state = SessionState::Closed;
                Action::SendAndClose(encode_method_selection(None), Outcome::Refused)
            },
            Ok(Some(method)) => {
                self.state = SessionState::AwaitingRequest;
                Action::SendAndReceive(encode_method_selection(Some(method)), FrameKind::Request)
            },
        }
    }

    fn on_request(&mut self, bytes: &[u8]) -> (action: Action)
        ensures
            (final(self)@, action@) == spec_on_request(bytes@),
    {
        self.ended = None;
        match parse_protocol(bytes) {
            Ok(request) => {
                self.state = SessionState::Connecting;
                Action::Connect(target(&request))
            },
            Err(RequestError::Protocol(error)) => {
                self.state = SessionState::Closed;
                Action::Close(Outcome::Failed(SessionError::Protocol(error)))
            },
            Err(RequestError::Unsupported(status)) => {
                self.state = SessionState::Closed;
                Action::SendAndClose(
                    encode_reply(status, None),
                    Outcome::Failed(SessionError::Unsupported(status)),
                )
            },
        }
    }

    fn on_direction_ended(&mut self, direction: Direction) -> (action: Action)
        requires
            old(self)@.state == SessionState::Relaying,
        ensures
            (final(self)@, action@) == spec_on_direction_ended(old(self)@.ended, direction),
    {
        match self.ended {
            None => {
                self.ended = Some(direction);
                Action::HalfClose(direction)
            },
            Some(first) => {
                if first == direction {
                    self.fail()
                } else {
                    self.state = SessionState::Closed;
                    self.ended = None;
                    Action::HalfCloseAndClose(direction)
                }
            },
        }
    }

    /// Takes the session one step: from its state and the event to the next
    /// state and the action to perform.
    pub fn step(&mut self, event: Event) -> (action: Action)
        ensures
            (final(self)@, action@) == spec_step(old(self)@, event@),
    {
        match self.state {
            SessionState::Init => match event {
                Event::Accepted => {
                    self.state = SessionState::Negotiating;
                    self.ended = None;
                    Action::Receive(FrameKind::Greeting)
                },
                _ => self.fail(),
            },
            SessionState::Negotiating => match event {
                Event::Frame(bytes) => self.on_greeting(bytes.as_slice()),
                Event::EndOfStream => self.truncated(),
                _ => self.fail(),
            },
            SessionState::AwaitingRequest => match event {
                Event::Frame(bytes) => self.on_request(bytes.as_slice()),
                Event::EndOfStream => self.truncated(),
                _ => self.fail(),
            },
            SessionState::Connecting => match event {
                Event::Connected(bound) => {
                    self.state = SessionState::Relaying;
                    self.ended = None;
                    Action::SendAndRelay(encode_reply(ReplyStatus::Succeeded, Some(bound)))
                },
                Event::ConnectFailed(failure) => {
                    let status = failure.reply_status();
                    self.state = SessionState::Closed;
                    self.ended = None;
                    Action::SendAndClose(
                        encode_reply(status, None),
                        Outcome::Failed(SessionError::Connect(status)),
                    )
                },
                _ => self.fail(),
            },
            SessionState::Relaying => match event {
                Event::DirectionEnded(direction) => self.on_direction_ended(direction),
                _ => self.fail(),
            },
            SessionState::Closed => self.fail(),
        }
    }
}

} // verus!
